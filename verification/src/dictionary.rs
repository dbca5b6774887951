//! JMdict dictionary entries: the entry records, the event-driven builder that
//! assembles them from the dictionary's XML stream, and the selection rules of
//! a lookup.
use vstd::prelude::*;
use quick_xml::events::Event;
use quick_xml::Reader;
use crate::text::{str_eq, is_ascii_digit, decimal_digits};
use crate::tokenizer::strings_view;

verus! {

/// A sense (meaning) of a dictionary entry.
#[derive(Debug, Clone)]
pub struct Sense {
    pub pos: Vec<String>,
    pub glosses: Vec<String>,
    pub misc: Vec<String>,
}

pub struct SenseView {
    pub pos: Seq<Seq<char>>,
    pub glosses: Seq<Seq<char>>,
    pub misc: Seq<Seq<char>>,
}

impl View for Sense {
    type V = SenseView;

    open spec fn view(&self) -> SenseView {
        SenseView {
            pos: strings_view(self.pos@),
            glosses: strings_view(self.glosses@),
            misc: strings_view(self.misc@),
        }
    }
}

pub open spec fn senses_view(v: Seq<Sense>) -> Seq<SenseView> {
    v.map_values(|s: Sense| s@)
}

/// A parsed JMdict entry.
#[derive(Debug, Clone)]
pub struct DictEntry {
    pub ent_seq: i64,
    pub kanji_forms: Vec<String>,
    pub readings: Vec<String>,
    pub senses: Vec<Sense>,
}

pub struct DictEntryView {
    pub ent_seq: int,
    pub kanji_forms: Seq<Seq<char>>,
    pub readings: Seq<Seq<char>>,
    pub senses: Seq<SenseView>,
}

impl View for DictEntry {
    type V = DictEntryView;

    open spec fn view(&self) -> DictEntryView {
        DictEntryView {
            ent_seq: self.ent_seq as int,
            kanji_forms: strings_view(self.kanji_forms@),
            readings: strings_view(self.readings@),
            senses: senses_view(self.senses@),
        }
    }
}

pub open spec fn entries_view(v: Seq<DictEntry>) -> Seq<DictEntryView> {
    v.map_values(|e: DictEntry| e@)
}

/// The first gloss of the first sense, or the empty text.
pub open spec fn first_gloss(e: DictEntryView) -> Seq<char> {
    if e.senses.len() > 0 && e.senses[0].glosses.len() > 0 {
        e.senses[0].glosses[0]
    } else {
        Seq::empty()
    }
}

/// The first reading, or the empty text.
pub open spec fn first_reading(e: DictEntryView) -> Seq<char> {
    if e.readings.len() > 0 {
        e.readings[0]
    } else {
        Seq::empty()
    }
}

impl DictEntry {
    /// Returns the first English gloss of the first sense, for sidebar display.
    pub fn short_gloss(&self) -> (r: String)
        ensures
            r@ == first_gloss(self@),
    {
        if self.senses.len() > 0 && self.senses[0].glosses.len() > 0 {
            self.senses[0].glosses[0].clone()
        } else {
            String::new()
        }
    }
}

/// The reading and short gloss shown for a multi-word expression found in the
/// dictionary: the entry's first reading and its first gloss.
pub fn mwe_info(entry: &DictEntry) -> (r: (String, String))
    ensures
        r.0@ == first_reading(entry@),
        r.1@ == first_gloss(entry@),
{
    let reading = if entry.readings.len() > 0 {
        entry.readings[0].clone()
    } else {
        String::new()
    };
    (reading, entry.short_gloss())
}

// ─── Decimal sequence numbers ───────────────────────────────────────

pub open spec fn digit_value(c: char) -> int {
    (c as int) - ('0' as int)
}

pub open spec fn all_digits(s: Seq<char>) -> bool {
    forall|i: int| 0 <= i < s.len() ==> is_ascii_digit(#[trigger] s[i])
}

/// The number written by the decimal digits `s`.
pub open spec fn decimal_value(s: Seq<char>) -> int
    decreases s.len(),
{
    if s.len() == 0 {
        0
    } else {
        decimal_value(s.drop_last()) * 10 + digit_value(s.last())
    }
}

/// The digits of `s` after an optional leading sign.
pub open spec fn unsigned_part(s: Seq<char>) -> Seq<char> {
    if s.len() > 0 && (s[0] == '+' || s[0] == '-') {
        s.drop_first()
    } else {
        s
    }
}

pub open spec fn is_negative(s: Seq<char>) -> bool {
    s.len() > 0 && s[0] == '-'
}

/// The signed value that `s` writes, when it is an optional sign followed by
/// at least one decimal digit.
pub open spec fn signed_value(s: Seq<char>) -> int {
    if is_negative(s) {
        -decimal_value(unsigned_part(s))
    } else {
        decimal_value(unsigned_part(s))
    }
}

pub open spec fn is_decimal(s: Seq<char>) -> bool {
    unsigned_part(s).len() > 0 && all_digits(unsigned_part(s))
}

/// The `i64` that `s` denotes as a decimal integer, if it denotes one.
pub open spec fn i64_of(s: Seq<char>) -> Option<i64> {
    if is_decimal(s) && i64::MIN <= signed_value(s) <= i64::MAX {
        Some(signed_value(s) as i64)
    } else {
        None
    }
}

proof fn lemma_decimal_value_grows(s: Seq<char>, k: int)
    requires
        all_digits(s),
        0 <= k <= s.len(),
    ensures
        0 <= decimal_value(s.take(k)) <= decimal_value(s),
    decreases s.len() - k,
{
    if k < s.len() {
        lemma_decimal_value_grows(s, k + 1);
        assert(s.take(k + 1).drop_last() == s.take(k));
        assert(is_ascii_digit(s[k]));
    } else {
        assert(s.take(k) == s);
        lemma_decimal_value_nonneg(s);
    }
}

proof fn lemma_decimal_value_nonneg(s: Seq<char>)
    requires
        all_digits(s),
    ensures
        decimal_value(s) >= 0,
    decreases s.len(),
{
    if s.len() > 0 {
        assert(is_ascii_digit(s.last()));
        lemma_decimal_value_nonneg(s.drop_last());
    }
}

/// Parses a decimal integer with an optional sign, as `str::parse::<i64>` does.
pub fn parse_i64(s: &str) -> (r: Option<i64>)
    ensures
        r == i64_of(s@),
{
    let v = crate::text::to_chars(s);
    let n = v.len();
    let mut start: usize = 0;
    let negative = n > 0 && v[0] == '-';
    if n > 0 && (v[0] == '+' || v[0] == '-') {
        start = 1;
    }
    let ghost u = unsigned_part(s@);
    assert(u == v@.subrange(start as int, n as int));
    if start >= n {
        return None;
    }
    let mut mag: u64 = 0;
    let mut i: usize = start;
    while i < n
        invariant
            start <= i <= n,
            n == v@.len(),
            v@ == s@,
            u == v@.subrange(start as int, n as int),
            u == unsigned_part(s@),
            negative == is_negative(s@),
            all_digits(u.take(i - start)),
            mag as int == decimal_value(u.take(i - start)),
        decreases n - i,
    {
        let c = v[i];
        assert(u.take(i + 1 - start).drop_last() == u.take(i - start));
        assert(u[i - start] == c);
        if !('0' <= c && c <= '9') {
            assert(!is_ascii_digit(u[i - start]));
            return None;
        }
        let d: u64 = ((c as u32) - ('0' as u32)) as u64;
        let next = match mag.checked_mul(10) {
            Some(m) => m.checked_add(d),
            None => None,
        };
        match next {
            Some(x) => {
                mag = x;
            },
            None => {
                // the digits so far already exceed every i64; so does the rest
                let ghost k = i + 1 - start;
                assert forall|j: int| 0 <= j < u.take(k).len() implies is_ascii_digit(
                    #[trigger] u.take(k)[j],
                ) by {
                    if j < k - 1 {
                        assert(u.take(k)[j] == u.take(k - 1)[j]);
                    }
                }
                proof {
                    if is_decimal(s@) {
                        lemma_decimal_value_grows(u, k);
                    }
                }
                return None;
            },
        }
        i += 1;
        proof {
            let k = i - start;
            assert forall|j: int| 0 <= j < u.take(k).len() implies is_ascii_digit(
                #[trigger] u.take(k)[j],
            ) by {
                if j < k - 1 {
                    assert(u.take(k)[j] == u.take(k - 1)[j]);
                }
            }
        }
    }
    assert(u.take(n - start) == u);
    if negative {
        if mag <= 9223372036854775808u64 {
            if mag == 9223372036854775808u64 {
                Some(i64::MIN)
            } else {
                let m: i64 = mag as i64;
                Some(-m)
            }
        } else {
            None
        }
    } else {
        if mag <= 9223372036854775807u64 {
            Some(mag as i64)
        } else {
            None
        }
    }
}

/// The sequence number recorded for the text of an `ent_seq` element: its
/// decimal value, or 0 when it is not a decimal `i64`.
pub fn parse_ent_seq(text: &str) -> (r: i64)
    ensures
        r == match i64_of(text@) {
            Some(v) => v,
            None => 0,
        },
{
    match parse_i64(text) {
        Some(v) => v,
        None => 0,
    }
}

// ─── Assembling entries from the XML stream ─────────────────────────

/// One event of the dictionary's XML stream, with names and attribute texts
/// decoded and text unescaped: an element's start (its name and its
/// attributes as name and value), an element's end (its name), text.
pub enum XmlEvent {
    Start(String, Vec<(String, String)>),
    End(String),
    Text(String),
    Other,
}

pub enum XmlEventView {
    Start { name: Seq<char>, attributes: Seq<(Seq<char>, Seq<char>)> },
    End { name: Seq<char> },
    Text { text: Seq<char> },
    Other,
}

pub open spec fn attributes_view(v: Seq<(String, String)>) -> Seq<(Seq<char>, Seq<char>)> {
    v.map_values(|a: (String, String)| (a.0@, a.1@))
}

impl View for XmlEvent {
    type V = XmlEventView;

    open spec fn view(&self) -> XmlEventView {
        match self {
            XmlEvent::Start(name, attributes) => XmlEventView::Start {
                name: name@,
                attributes: attributes_view(attributes@),
            },
            XmlEvent::End(name) => XmlEventView::End { name: name@ },
            XmlEvent::Text(text) => XmlEventView::Text { text: text@ },
            XmlEvent::Other => XmlEventView::Other,
        }
    }
}

/// An attribute that names a language other than English.
pub open spec fn names_other_language(a: (Seq<char>, Seq<char>)) -> bool {
    (a.0 == "xml:lang"@ || a.0 == "lang"@) && a.1 != "eng"@
}

/// A gloss is English unless a `lang` or `xml:lang` attribute names another language.
pub open spec fn gloss_lang_is_english(attrs: Seq<(Seq<char>, Seq<char>)>) -> bool {
    forall|i: int| 0 <= i < attrs.len() ==> !#[trigger] names_other_language(attrs[i])
}

struct EntryBuilder {
    ent_seq: i64,
    kanji_forms: Vec<String>,
    readings: Vec<String>,
    senses: Vec<Sense>,
}

impl View for EntryBuilder {
    type V = DictEntryView;

    closed spec fn view(&self) -> DictEntryView {
        DictEntryView {
            ent_seq: self.ent_seq as int,
            kanji_forms: strings_view(self.kanji_forms@),
            readings: strings_view(self.readings@),
            senses: senses_view(self.senses@),
        }
    }
}

pub open spec fn empty_entry() -> DictEntryView {
    DictEntryView { ent_seq: 0, kanji_forms: seq![], readings: seq![], senses: seq![] }
}

pub open spec fn empty_sense() -> SenseView {
    SenseView { pos: seq![], glosses: seq![], misc: seq![] }
}

impl EntryBuilder {
    fn new() -> (r: Self)
        ensures
            r@ == empty_entry(),
    {
        let r = EntryBuilder {
            ent_seq: 0,
            kanji_forms: Vec::new(),
            readings: Vec::new(),
            senses: Vec::new(),
        };
        assert(strings_view(r.kanji_forms@) =~= seq![]);
        assert(strings_view(r.readings@) =~= seq![]);
        assert(senses_view(r.senses@) =~= seq![]);
        r
    }

    fn build(self) -> (r: DictEntry)
        ensures
            r@ == self@,
    {
        DictEntry {
            ent_seq: self.ent_seq,
            kanji_forms: self.kanji_forms,
            readings: self.readings,
            senses: self.senses,
        }
    }
}

struct SenseBuilder {
    pos: Vec<String>,
    glosses: Vec<String>,
    misc: Vec<String>,
}

impl View for SenseBuilder {
    type V = SenseView;

    closed spec fn view(&self) -> SenseView {
        SenseView {
            pos: strings_view(self.pos@),
            glosses: strings_view(self.glosses@),
            misc: strings_view(self.misc@),
        }
    }
}

fn clone_strings(v: &Vec<String>) -> (r: Vec<String>)
    ensures
        strings_view(r@) == strings_view(v@),
{
    let mut out: Vec<String> = Vec::new();
    let mut i: usize = 0;
    while i < v.len()
        invariant
            i <= v@.len(),
            strings_view(out@) == strings_view(v@.take(i as int)),
        decreases v.len() - i,
    {
        out.push(v[i].clone());
        i += 1;
        assert(strings_view(v@.take(i as int)) == strings_view(v@.take(i - 1)).push(v@[i - 1]@));
    }
    assert(v@.take(v@.len() as int) == v@);
    out
}

impl SenseBuilder {
    fn new() -> (r: Self)
        ensures
            r@ == empty_sense(),
    {
        let r = SenseBuilder { pos: Vec::new(), glosses: Vec::new(), misc: Vec::new() };
        assert(strings_view(r.pos@) =~= seq![]);
        assert(strings_view(r.glosses@) =~= seq![]);
        assert(strings_view(r.misc@) =~= seq![]);
        r
    }

    fn build(&self) -> (r: Sense)
        ensures
            r@ == self@,
    {
        Sense {
            pos: clone_strings(&self.pos),
            glosses: clone_strings(&self.glosses),
            misc: clone_strings(&self.misc),
        }
    }
}

/// The state of the entry assembler between two events.
pub struct JmdictState {
    pub entry: Option<DictEntryView>,
    pub element: Seq<char>,
    pub in_sense: bool,
    pub sense: SenseView,
    pub gloss_is_english: bool,
}

/// Assembles dictionary entries from the events of a JMdict XML stream.
pub struct JmdictAssembler {
    current_entry: Option<EntryBuilder>,
    current_element: String,
    in_sense: bool,
    current_sense: SenseBuilder,
    gloss_is_english: bool,
}

pub open spec fn opt_entry_view(o: Option<DictEntry>) -> Option<DictEntryView> {
    match o {
        Some(e) => Some(e@),
        None => None,
    }
}

impl View for JmdictAssembler {
    type V = JmdictState;

    closed spec fn view(&self) -> JmdictState {
        JmdictState {
            entry: match self.current_entry {
                Some(b) => Some(b@),
                None => None,
            },
            element: self.current_element@,
            in_sense: self.in_sense,
            sense: self.current_sense@,
            gloss_is_english: self.gloss_is_english,
        }
    }
}

pub open spec fn initial_jmdict_state() -> JmdictState {
    JmdictState {
        entry: None,
        element: seq![],
        in_sense: false,
        sense: empty_sense(),
        gloss_is_english: true,
    }
}

/// The state after an element opens.
pub open spec fn start_step(s: JmdictState, name: Seq<char>, attrs: Seq<(Seq<char>, Seq<char>)>) -> JmdictState {
    if name == "entry"@ {
        JmdictState { entry: Some(empty_entry()), element: name, ..s }
    } else if name == "sense"@ {
        JmdictState { in_sense: true, sense: empty_sense(), element: name, ..s }
    } else if name == "gloss"@ {
        JmdictState { gloss_is_english: gloss_lang_is_english(attrs), element: name, ..s }
    } else {
        JmdictState { element: name, ..s }
    }
}

/// The state after an element closes; a closing `entry` hands out the entry
/// being assembled.
pub open spec fn end_step(s: JmdictState, name: Seq<char>) -> (JmdictState, Option<DictEntryView>) {
    if name == "entry"@ {
        (JmdictState { entry: None, element: seq![], ..s }, s.entry)
    } else if name == "sense"@ {
        (
            JmdictState {
                entry: match s.entry {
                    Some(e) => Some(DictEntryView { senses: e.senses.push(s.sense), ..e }),
                    None => None,
                },
                in_sense: false,
                element: seq![],
                ..s
            },
            None,
        )
    } else {
        (JmdictState { element: seq![], ..s }, None)
    }
}

/// The state after a text inside the current element.
pub open spec fn text_step(s: JmdictState, text: Seq<char>) -> JmdictState {
    match s.entry {
        None => s,
        Some(e) => {
            if s.element == "ent_seq"@ {
                JmdictState {
                    entry: Some(
                        DictEntryView {
                            ent_seq: match i64_of(text) {
                                Some(v) => v as int,
                                None => 0,
                            },
                            ..e
                        },
                    ),
                    ..s
                }
            } else if s.element == "keb"@ {
                JmdictState {
                    entry: Some(DictEntryView { kanji_forms: e.kanji_forms.push(text), ..e }),
                    ..s
                }
            } else if s.element == "reb"@ {
                JmdictState {
                    entry: Some(DictEntryView { readings: e.readings.push(text), ..e }),
                    ..s
                }
            } else if s.element == "gloss"@ {
                if s.in_sense && s.gloss_is_english {
                    JmdictState {
                        sense: SenseView { glosses: s.sense.glosses.push(text), ..s.sense },
                        ..s
                    }
                } else {
                    s
                }
            } else if s.element == "pos"@ {
                if s.in_sense {
                    JmdictState { sense: SenseView { pos: s.sense.pos.push(text), ..s.sense }, ..s }
                } else {
                    s
                }
            } else if s.element == "misc"@ {
                if s.in_sense {
                    JmdictState { sense: SenseView { misc: s.sense.misc.push(text), ..s.sense }, ..s }
                } else {
                    s
                }
            } else {
                s
            }
        },
    }
}

/// The state after one event, and the entry that the event completes.
pub open spec fn jmdict_step(s: JmdictState, ev: XmlEventView) -> (JmdictState, Option<DictEntryView>) {
    match ev {
        XmlEventView::Start { name, attributes } => (start_step(s, name, attributes), None),
        XmlEventView::End { name } => end_step(s, name),
        XmlEventView::Text { text } => (text_step(s, text), None),
        XmlEventView::Other => (s, None),
    }
}

fn is_english_gloss(attributes: &Vec<(String, String)>) -> (r: bool)
    ensures
        r == gloss_lang_is_english(attributes_view(attributes@)),
{
    let ghost av = attributes_view(attributes@);
    let mut english = true;
    let mut i: usize = 0;
    while i < attributes.len()
        invariant
            i <= attributes@.len(),
            av == attributes_view(attributes@),
            english == (forall|j: int| 0 <= j < i ==> !#[trigger] names_other_language(av[j])),
        decreases attributes.len() - i,
    {
        assert(av[i as int] == (attributes@[i as int].0@, attributes@[i as int].1@));
        let key = attributes[i].0.as_str();
        if str_eq(key, "xml:lang") || str_eq(key, "lang") {
            if !str_eq(attributes[i].1.as_str(), "eng") {
                english = false;
            }
        }
        assert(names_other_language(av[i as int]) ==> !english);
        i += 1;
    }
    english
}

impl JmdictAssembler {
    pub fn new() -> (r: Self)
        ensures
            r@ == initial_jmdict_state(),
    {
        JmdictAssembler {
            current_entry: None,
            current_element: String::new(),
            in_sense: false,
            current_sense: SenseBuilder::new(),
            gloss_is_english: true,
        }
    }

    fn on_start(&mut self, name: String, attributes: &Vec<(String, String)>)
        ensures
            final(self)@ == start_step(old(self)@, name@, attributes_view(attributes@)),
    {
        if str_eq(name.as_str(), "entry") {
            self.current_entry = Some(EntryBuilder::new());
        } else if str_eq(name.as_str(), "sense") {
            self.in_sense = true;
            self.current_sense = SenseBuilder::new();
        } else if str_eq(name.as_str(), "gloss") {
            self.gloss_is_english = is_english_gloss(attributes);
        }
        self.current_element = name;
    }

    fn on_end(&mut self, name: &str) -> (r: Option<DictEntry>)
        ensures
            (final(self)@, opt_entry_view(r)) == end_step(old(self)@, name@),
    {
        let mut done: Option<DictEntry> = None;
        if str_eq(name, "entry") {
            match self.current_entry.take() {
                Some(builder) => {
                    done = Some(builder.build());
                },
                None => {},
            }
        } else if str_eq(name, "sense") {
            match self.current_entry.take() {
                Some(mut builder) => {
                    let sense = self.current_sense.build();
                    builder.senses.push(sense);
                    proof {
                        assert(senses_view(builder.senses@) == old(self)@.entry->0.senses.push(
                            old(self)@.sense,
                        ));
                    }
                    self.current_entry = Some(builder);
                },
                None => {},
            }
            self.in_sense = false;
        }
        self.current_element = String::new();
        done
    }

    fn on_text(&mut self, text: String)
        ensures
            final(self)@ == text_step(old(self)@, text@),
    {
        match self.current_entry.take() {
            None => {},
            Some(mut builder) => {
                let el = self.current_element.as_str();
                if str_eq(el, "ent_seq") {
                    builder.ent_seq = parse_ent_seq(text.as_str());
                } else if str_eq(el, "keb") {
                    builder.kanji_forms.push(text);
                    proof {
                        assert(strings_view(builder.kanji_forms@) == old(self)@.entry->0.kanji_forms.push(
                            text@,
                        ));
                    }
                } else if str_eq(el, "reb") {
                    builder.readings.push(text);
                    proof {
                        assert(strings_view(builder.readings@) == old(self)@.entry->0.readings.push(
                            text@,
                        ));
                    }
                } else if str_eq(el, "gloss") {
                    if self.in_sense && self.gloss_is_english {
                        self.current_sense.glosses.push(text);
                        proof {
                            assert(strings_view(self.current_sense.glosses@)
                                == old(self)@.sense.glosses.push(text@));
                        }
                    }
                } else if str_eq(el, "pos") {
                    if self.in_sense {
                        self.current_sense.pos.push(text);
                        proof {
                            assert(strings_view(self.current_sense.pos@) == old(self)@.sense.pos.push(
                                text@,
                            ));
                        }
                    }
                } else if str_eq(el, "misc") {
                    if self.in_sense {
                        self.current_sense.misc.push(text);
                        proof {
                            assert(strings_view(self.current_sense.misc@) == old(self)@.sense.misc.push(
                                text@,
                            ));
                        }
                    }
                }
                self.current_entry = Some(builder);
            },
        }
    }

    /// Takes one event of the stream; returns the entry that a closing
    /// `entry` element completes.
    pub fn feed(&mut self, event: XmlEvent) -> (r: Option<DictEntry>)
        ensures
            (final(self)@, opt_entry_view(r)) == jmdict_step(old(self)@, event@),
    {
        match event {
            XmlEvent::Start(name, attributes) => {
                self.on_start(name, &attributes);
                None
            },
            XmlEvent::End(name) => self.on_end(name.as_str()),
            XmlEvent::Text(text) => {
                self.on_text(text);
                None
            },
            XmlEvent::Other => None,
        }
    }
}

// ─── Reading a JMdict file ──────────────────────────────────────────

/// The events that quick-xml reads from the XML text `xml`, with text nodes
/// trimmed and unescaped (an escape it cannot read gives empty text), up
/// to the end of the input; none when the XML is malformed.
pub uninterp spec fn xml_events_of(xml: Seq<char>) -> Option<Seq<XmlEventView>>;

/// The events as plain values.
pub open spec fn events_view(v: Seq<XmlEvent>) -> Seq<XmlEventView> {
    v.map_values(|e: XmlEvent| e@)
}

/// Calls `quick_xml::Reader::read_event` on `xml` until the end of the input
/// and hands out each event as an [`XmlEvent`]: element starts with their
/// name and attributes, element ends, text nodes; the rest as `Other`.
#[verifier::external_body]
pub(crate) fn read_xml_events(xml: &str) -> (r: Option<Vec<XmlEvent>>)
    ensures
        match r {
            Some(v) => xml_events_of(xml@) == Some(events_view(v@)),
            None => xml_events_of(xml@) is None,
        },
{
    let mut reader = Reader::from_str(xml);
    reader.trim_text(true);
    let mut out = Vec::new();
    let text = |b: &[u8]| String::from_utf8_lossy(b).into_owned();
    loop {
        out.push(match reader.read_event().ok()? {
            Event::Eof => return Some(out),
            Event::Start(e) => XmlEvent::Start(text(e.name().0), e.attributes().flatten().map(|a| (text(a.key.0), text(&a.value))).collect()),
            Event::End(e) => XmlEvent::End(text(e.name().0)),
            Event::Text(e) => XmlEvent::Text(e.unescape().unwrap_or_default().into()),
            _ => XmlEvent::Other,
        });
    }
}

/// The assembler's state after the events `evs` from the start, and the
/// entries they completed, in order.
pub open spec fn run_jmdict(evs: Seq<XmlEventView>) -> (JmdictState, Seq<DictEntryView>)
    decreases evs.len(),
{
    if evs.len() == 0 {
        (initial_jmdict_state(), Seq::empty())
    } else {
        let (s, done) = run_jmdict(evs.drop_last());
        let (t, e) = jmdict_step(s, evs.last());
        (
            t,
            match e {
                Some(x) => done.push(x),
                None => done,
            },
        )
    }
}

/// The dictionary entries of a JMdict XML text, in the order of the file;
/// the reader's error when the XML is malformed.
pub fn jmdict_entries(xml: &str) -> (r: Result<Vec<DictEntry>, String>)
    ensures
        match r {
            Ok(v) => xml_events_of(xml@) matches Some(evs) && entries_view(v@) == run_jmdict(evs).1,
            Err(_) => xml_events_of(xml@) is None,
        },
{
    let mut events = match read_xml_events(xml) {
        Some(v) => v,
        None => return Err(String::from_str("XML parse error in the JMdict file")),
    };
    let ghost evs = events_view(events@);
    let mut assembler = JmdictAssembler::new();
    let mut out: Vec<DictEntry> = Vec::new();
    let mut i: usize = 0;
    while i < events.len()
        invariant
            i <= events@.len(),
            events@.len() == evs.len(),
            forall|k: int| i <= k < evs.len() ==> #[trigger] events@[k]@ == evs[k],
            (assembler@, entries_view(out@)) == run_jmdict(evs.take(i as int)),
        decreases events.len() - i,
    {
        let mut ev = XmlEvent::Other;
        std::mem::swap(&mut ev, &mut events[i]);
        assert(ev@ == evs[i as int]);
        proof {
            assert(evs.take(i + 1).drop_last() =~= evs.take(i as int));
            assert(evs.take(i + 1).last() == evs[i as int]);
        }
        let ghost prev = out@;
        match assembler.feed(ev) {
            Some(entry) => {
                out.push(entry);
                assert(entries_view(out@) =~= entries_view(prev).push(entry@));
            },
            None => {},
        }
        i += 1;
    }
    assert(evs.take(i as int) =~= evs);
    Ok(out)
}

// ─── Lookup ─────────────────────────────────────────────────────────

pub open spec fn opt_str_view(o: Option<&str>) -> Option<Seq<char>> {
    match o {
        Some(x) => Some(x@),
        None => None,
    }
}

/// Whether an entry is kept for the requested reading: every entry when no
/// reading is requested, else those that list it among their readings.
pub open spec fn keeps_reading(e: DictEntryView, reading: Option<Seq<char>>) -> bool {
    match reading {
        None => true,
        Some(r) => e.readings.contains(r),
    }
}

/// The entries of `s`, in order, that are kept for `reading`.
pub open spec fn with_reading(s: Seq<DictEntryView>, reading: Option<Seq<char>>) -> Seq<DictEntryView>
    decreases s.len(),
{
    if s.len() == 0 {
        seq![]
    } else {
        let rest = with_reading(s.drop_first(), reading);
        if keeps_reading(s[0], reading) {
            seq![s[0]] + rest
        } else {
            rest
        }
    }
}

/// Whether `entry` lists `reading` among its readings.
pub fn has_reading(entry: &DictEntry, reading: &str) -> (r: bool)
    ensures
        r == entry@.readings.contains(reading@),
{
    let mut i: usize = 0;
    while i < entry.readings.len()
        invariant
            i <= entry.readings@.len(),
            forall|j: int| 0 <= j < i ==> entry@.readings[j] != reading@,
        decreases entry.readings.len() - i,
    {
        if str_eq(entry.readings[i].as_str(), reading) {
            assert(entry@.readings[i as int] == reading@);
            return true;
        }
        i += 1;
    }
    false
}

/// Keeps, in order, the dictionary hits found by kanji form that list the
/// requested reading; all of them when no reading is requested.
pub fn filter_by_reading(hits: Vec<DictEntry>, reading: Option<&str>) -> (r: Vec<DictEntry>)
    ensures
        entries_view(r@) == with_reading(entries_view(hits@), opt_str_view(reading)),
{
    let ghost want = opt_str_view(reading);
    let ghost all = entries_view(hits@);
    let mut rest = hits;
    let mut out: Vec<DictEntry> = Vec::new();
    while rest.len() > 0
        invariant
            want == opt_str_view(reading),
            with_reading(all, want) == entries_view(out@) + with_reading(entries_view(rest@), want),
        decreases rest.len(),
    {
        let ghost before = entries_view(rest@);
        let e = rest.remove(0);
        assert(entries_view(rest@) == before.drop_first());
        let keep = match reading {
            None => true,
            Some(r) => has_reading(&e, r),
        };
        let ghost prev = entries_view(out@);
        if keep {
            out.push(e);
            assert(entries_view(out@) == prev + seq![before[0]]);
        }
        assert(with_reading(before, want) == if keeps_reading(before[0], want) {
            seq![before[0]] + with_reading(before.drop_first(), want)
        } else {
            with_reading(before.drop_first(), want)
        });
    }
    out
}

// ─── Laws ───────────────────────────────────────────────────────────

/// Filtering by reading keeps, in order, exactly the entries that list the
/// reading: each kept entry lists it, no entry that lists it is dropped,
/// and with no reading requested nothing is dropped.
pub proof fn law_reading_filter(s: Seq<DictEntryView>, reading: Option<Seq<char>>)
    ensures
        forall|k: int| 0 <= k < with_reading(s, reading).len() ==> keeps_reading(
            #[trigger] with_reading(s, reading)[k],
            reading,
        ) && s.contains(with_reading(s, reading)[k]),
        forall|k: int| 0 <= k < s.len() && keeps_reading(#[trigger] s[k], reading) ==> with_reading(s, reading).contains(s[k]),
        reading is None ==> with_reading(s, reading) == s,
    decreases s.len(),
{
    if s.len() > 0 {
        law_reading_filter(s.drop_first(), reading);
        let rest = with_reading(s.drop_first(), reading);
        assert forall|k: int| 0 <= k < with_reading(s, reading).len() implies keeps_reading(
            #[trigger] with_reading(s, reading)[k],
            reading,
        ) && s.contains(with_reading(s, reading)[k]) by {
            if keeps_reading(s[0], reading) {
                if k == 0 {
                    assert(with_reading(s, reading)[0] == s[0]);
                } else {
                    assert(with_reading(s, reading)[k] == rest[k - 1]);
                    let e = rest[k - 1];
                    let j = choose|j: int| 0 <= j < s.drop_first().len() && s.drop_first()[j] == e;
                    assert(s[j + 1] == e);
                }
            } else {
                let e = rest[k];
                let j = choose|j: int| 0 <= j < s.drop_first().len() && s.drop_first()[j] == e;
                assert(s[j + 1] == e);
            }
        }
        assert forall|k: int| 0 <= k < s.len() && keeps_reading(#[trigger] s[k], reading) implies with_reading(
            s,
            reading,
        ).contains(s[k]) by {
            if k == 0 {
                assert(with_reading(s, reading)[0] == s[0]);
            } else {
                assert(s.drop_first()[k - 1] == s[k]);
                let j = choose|j: int| 0 <= j < rest.len() && rest[j] == s[k];
                if keeps_reading(s[0], reading) {
                    assert(with_reading(s, reading)[j + 1] == s[k]);
                } else {
                    assert(with_reading(s, reading)[j] == s[k]);
                }
            }
        }
        if reading is None {
            assert(with_reading(s, reading) =~= s);
        }
    } else {
        assert(with_reading(s, reading) =~= s);
    }
}

/// The decimal digits of `n` are digits, at least one, and write `n`.
pub proof fn lemma_decimal_digits(n: nat)
    ensures
        decimal_digits(n).len() > 0,
        all_digits(decimal_digits(n)),
        decimal_value(decimal_digits(n)) == n,
    decreases n,
{
    let d = n % 10;
    let c = (48 + d) as char;
    assert(c as int == 48 + d);
    assert(('0' as int) == 48);
    assert(digit_value(c) == d);
    assert((n / 10) * 10 + n % 10 == n) by (nonlinear_arith);
    if n >= 10 {
        lemma_decimal_digits(n / 10);
        let s = decimal_digits(n);
        assert(s.drop_last() == decimal_digits(n / 10));
        assert(s.last() == c);
        assert(decimal_value(s) == decimal_value(s.drop_last()) * 10 + digit_value(s.last()));
        assert(decimal_value(s) == (n / 10) * 10 + d);
        assert forall|i: int| 0 <= i < s.len() implies is_ascii_digit(#[trigger] s[i]) by {
            if i < s.len() - 1 {
                assert(s[i] == decimal_digits(n / 10)[i]);
            }
        }
    } else {
        let s = decimal_digits(n);
        assert(s.drop_last() =~= Seq::<char>::empty());
        assert(s.last() == c);
        assert(decimal_value(s) == decimal_value(s.drop_last()) * 10 + digit_value(s.last()));
        assert(n % 10 == n);
    }
}

/// A number written in decimal (as chapter titles write it) reads back as
/// the same number.
pub proof fn law_decimal_roundtrip(n: nat)
    requires
        n <= i64::MAX,
    ensures
        i64_of(decimal_digits(n)) == Some(n as i64),
{
    lemma_decimal_digits(n);
    let s = decimal_digits(n);
    assert(is_ascii_digit(s[0]));
    assert(unsigned_part(s) == s);
}

} // verus!
