use kotoba::conjugation::{assign_conjugation_groups, auxiliary_label, GroupToken};

fn make_group_token<'a>(pos: &'a str, base_form: &'a str, conj_form: &'a str) -> GroupToken<'a> {
    GroupToken { pos, base_form, conjugation_form: conj_form }
}

#[test]
fn test_grouping_verb_negative() {
    let tokens = vec![
        make_group_token("Verb", "食べる", "continuative (general)"),
        make_group_token("Auxiliary", "ない", "terminal (general)"),
    ];
    let groups = assign_conjugation_groups(&tokens);
    assert_eq!(groups.len(), 1);
    assert_eq!(groups[0].head_index, 0);
    assert_eq!(groups[0].member_indices, vec![0, 1]);
    assert_eq!(groups[0].description, "verb, negative");
}

#[test]
fn test_grouping_verb_polite_past() {
    let tokens = vec![
        make_group_token("Verb", "食べる", "continuative (general)"),
        make_group_token("Auxiliary", "ます", "continuative (general)"),
        make_group_token("Auxiliary", "た", "terminal (general)"),
    ];
    let groups = assign_conjugation_groups(&tokens);
    assert_eq!(groups.len(), 1);
    assert_eq!(groups[0].member_indices, vec![0, 1, 2]);
    assert_eq!(groups[0].description, "verb, polite, past");
}

#[test]
fn test_grouping_verb_causative_want() {
    let tokens = vec![
        make_group_token("Verb", "食べる", "continuative (general)"),
        make_group_token("Auxiliary", "させる", "continuative (general)"),
        make_group_token("Auxiliary", "たい", "terminal (general)"),
    ];
    let groups = assign_conjugation_groups(&tokens);
    assert_eq!(groups.len(), 1);
    assert_eq!(groups[0].description, "verb, causative, want to");
}

#[test]
fn test_grouping_stops_at_particle() {
    let tokens = vec![
        make_group_token("Verb", "食べる", "continuative (general)"),
        make_group_token("Particle", "て", ""),
        make_group_token("Verb", "いる", "terminal (general)"),
    ];
    let groups = assign_conjugation_groups(&tokens);
    assert_eq!(groups.len(), 2, "Should be two groups separated by particle");
    assert_eq!(groups[0].member_indices, vec![0]);
    assert_eq!(groups[1].member_indices, vec![2]);
}

#[test]
fn test_grouping_standalone_verb() {
    let tokens = vec![
        make_group_token("Verb", "食べる", "terminal (general)"),
        make_group_token("Symbol", "。", ""),
    ];
    let groups = assign_conjugation_groups(&tokens);
    assert_eq!(groups.len(), 1);
    assert_eq!(groups[0].member_indices, vec![0]);
    assert_eq!(groups[0].description, "verb");
}

#[test]
fn test_grouping_conditional_form() {
    let tokens = vec![
        make_group_token("Verb", "行く", "irrealis (general)"),
        make_group_token("Auxiliary", "ない", "conditional (general)"),
    ];
    let groups = assign_conjugation_groups(&tokens);
    assert_eq!(groups.len(), 1);
    assert_eq!(groups[0].description, "verb, negative, conditional");
}

#[test]
fn test_grouping_imperative() {
    let tokens = vec![make_group_token("Verb", "食べる", "imperative (general)")];
    let groups = assign_conjugation_groups(&tokens);
    assert_eq!(groups.len(), 1);
    assert_eq!(groups[0].description, "verb, imperative");
}

#[test]
fn test_grouping_adjective() {
    let tokens = vec![
        make_group_token("Adjective", "美しい", "continuative (general)"),
        make_group_token("Auxiliary", "ない", "terminal (general)"),
    ];
    let groups = assign_conjugation_groups(&tokens);
    assert_eq!(groups.len(), 1);
    assert_eq!(groups[0].description, "adjective, negative");
}

#[test]
fn test_grouping_multiple_groups() {
    let tokens = vec![
        make_group_token("Verb", "食べる", "continuative (general)"),
        make_group_token("Auxiliary", "ない", "attributive (general)"),
        make_group_token("Noun", "猫", ""),
        make_group_token("Particle", "が", ""),
        make_group_token("Verb", "走る", "continuative (general)"),
        make_group_token("Auxiliary", "た", "terminal (general)"),
    ];
    let groups = assign_conjugation_groups(&tokens);
    assert_eq!(groups.len(), 2);
    assert_eq!(groups[0].member_indices, vec![0, 1]);
    assert_eq!(groups[0].description, "verb, negative");
    assert_eq!(groups[1].member_indices, vec![4, 5]);
    assert_eq!(groups[1].description, "verb, past");
}

#[test]
fn test_auxiliary_label_coverage() {
    assert_eq!(auxiliary_label("ない"), "negative");
    assert_eq!(auxiliary_label("ます"), "polite");
    assert_eq!(auxiliary_label("た"), "past");
    assert_eq!(auxiliary_label("だ"), "past");
    assert_eq!(auxiliary_label("れる"), "passive/potential");
    assert_eq!(auxiliary_label("られる"), "passive/potential");
    assert_eq!(auxiliary_label("せる"), "causative");
    assert_eq!(auxiliary_label("させる"), "causative");
    assert_eq!(auxiliary_label("たい"), "want to");
    assert_eq!(auxiliary_label("う"), "volitional");
    assert_eq!(auxiliary_label("よう"), "volitional");
    assert_eq!(auxiliary_label("ぬ"), "negative (classical)");
    assert_eq!(auxiliary_label("ず"), "negative (literary)");
    assert_eq!(auxiliary_label("まい"), "negative volitional");
    assert_eq!(auxiliary_label("そう"), "looks like");
    assert_eq!(auxiliary_label("らしい"), "seems like");
    assert_eq!(auxiliary_label("べし"), "should (classical)");
    assert_eq!(auxiliary_label("です"), "copula (polite)");
    assert_eq!(auxiliary_label("unknown"), "");
}
