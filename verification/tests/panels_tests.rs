use kotoba::panels::{
    back_from_reader, heatmap_key, route_key, Reload, stats_key, toggled_home_focus, GlobalKey, HeatmapCursor, HeatmapKey, HomeFocus,
    KeyRoute, StatsAction, StatsCursor, StatsFocus, StatsKey,
};
use kotoba::screens::Screen;

#[test]
fn popups_take_every_key() {
    assert_eq!(route_key(true, &Screen::Home, false, GlobalKey::CtrlChar('c')), KeyRoute::Popup);
    assert_eq!(route_key(true, &Screen::Reader, true, GlobalKey::Char('q')), KeyRoute::Popup);
}

#[test]
fn quitting_asks_in_the_reader() {
    assert_eq!(route_key(false, &Screen::Home, false, GlobalKey::CtrlChar('c')), KeyRoute::Quit);
    assert_eq!(route_key(false, &Screen::Reader, true, GlobalKey::CtrlChar('c')), KeyRoute::Quit);
    assert_eq!(route_key(false, &Screen::Reader, true, GlobalKey::Char('q')), KeyRoute::ConfirmQuit);
    assert_eq!(route_key(false, &Screen::Reader, false, GlobalKey::Char('q')), KeyRoute::Quit);
    assert_eq!(route_key(false, &Screen::Library, true, GlobalKey::Char('q')), KeyRoute::Quit);
}

#[test]
fn tab_switches_panels_or_goes_to_the_reader() {
    for s in [Screen::Settings, Screen::CardBrowser, Screen::Home, Screen::Stats] {
        assert_eq!(route_key(false, &s, false, GlobalKey::Tab), KeyRoute::Screen);
        assert_eq!(route_key(false, &s, false, GlobalKey::BackTab), KeyRoute::Screen);
    }
    assert_eq!(route_key(false, &Screen::Reader, true, GlobalKey::Tab), KeyRoute::BackFromReader);
    assert_eq!(route_key(false, &Screen::Library, false, GlobalKey::Tab), KeyRoute::OpenRecentText);
    assert_eq!(route_key(false, &Screen::Review, false, GlobalKey::BackTab), KeyRoute::Ignore);
}

#[test]
fn other_keys_go_to_the_screen() {
    assert_eq!(route_key(false, &Screen::Library, false, GlobalKey::Char('?')), KeyRoute::Help);
    assert_eq!(route_key(false, &Screen::Library, false, GlobalKey::Char('j')), KeyRoute::Screen);
    assert_eq!(route_key(false, &Screen::ChapterSelect { source_id: 3 }, false, GlobalKey::Other), KeyRoute::Screen);
}

#[test]
fn home_focus_alternates() {
    assert_eq!(toggled_home_focus(HomeFocus::Heatmap), HomeFocus::TextList);
    assert_eq!(toggled_home_focus(HomeFocus::TextList), HomeFocus::Heatmap);
}

#[test]
fn heatmap_cursor_moves_by_day_and_week() {
    // 10 weeks: the cursor at row 2, column 3
    let mut c = HeatmapCursor { cells: 70, cursor: 23 };
    assert!(heatmap_key(&mut c, HeatmapKey::Left));
    assert_eq!(c.cursor, 22);
    heatmap_key(&mut c, HeatmapKey::Up);
    assert_eq!(c.cursor, 12);
    heatmap_key(&mut c, HeatmapKey::Up);
    heatmap_key(&mut c, HeatmapKey::Up);
    assert_eq!(c.cursor, 2);
    heatmap_key(&mut c, HeatmapKey::Down);
    assert_eq!(c.cursor, 12);
    c.cursor = 69;
    heatmap_key(&mut c, HeatmapKey::Right);
    heatmap_key(&mut c, HeatmapKey::Down);
    assert_eq!(c.cursor, 69);
    c.cursor = 60;
    heatmap_key(&mut c, HeatmapKey::Left);
    assert_eq!(c.cursor, 60);
    heatmap_key(&mut c, HeatmapKey::Right);
    assert_eq!(c.cursor, 61);
    assert!(!heatmap_key(&mut c, HeatmapKey::Other));
}

#[test]
fn heatmap_without_a_week_stays() {
    let mut c = HeatmapCursor { cells: 6, cursor: 2 };
    assert!(heatmap_key(&mut c, HeatmapKey::Right));
    assert_eq!(c.cursor, 2);
}

#[test]
fn stats_panels_and_selection() {
    let ids = vec![11, 12, 13];
    let mut c = StatsCursor { focus: StatsFocus::Overview, coverage_selected: 0, scroll: 0 };
    stats_key(&mut c, StatsKey::Down, &ids);
    stats_key(&mut c, StatsKey::Down, &ids);
    stats_key(&mut c, StatsKey::Up, &ids);
    assert_eq!(c.scroll, 1);
    assert_eq!(stats_key(&mut c, StatsKey::Open, &ids), StatsAction::Nothing);
    stats_key(&mut c, StatsKey::SwitchPanel, &ids);
    assert_eq!(c.focus, StatsFocus::Coverage);
    for _ in 0..5 {
        stats_key(&mut c, StatsKey::Down, &ids);
    }
    assert_eq!(c.coverage_selected, 2);
    assert_eq!(stats_key(&mut c, StatsKey::Open, &ids), StatsAction::OpenText { text_id: 13 });
    stats_key(&mut c, StatsKey::Up, &ids);
    assert_eq!(c.coverage_selected, 1);
    assert_eq!(stats_key(&mut c, StatsKey::TimeRange, &ids), StatsAction::NextTimeRange);
    assert_eq!(stats_key(&mut c, StatsKey::Back, &ids), StatsAction::Back);
    assert_eq!(c.scroll, 1);
}

#[test]
fn leaving_the_reader_returns_and_reloads() {
    assert_eq!(back_from_reader(None), (Screen::Home, Reload::Home));
    assert_eq!(back_from_reader(Some(Screen::Library)), (Screen::Library, Reload::Library));
    assert_eq!(
        back_from_reader(Some(Screen::ChapterSelect { source_id: 4 })),
        (Screen::ChapterSelect { source_id: 4 }, Reload::Chapters { source_id: 4 })
    );
    assert_eq!(back_from_reader(Some(Screen::Stats)), (Screen::Stats, Reload::Nothing));
}
