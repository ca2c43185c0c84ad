use libwau::toc::{ParseError, State, Toc};

fn parsed(text: &str) -> Toc {
    Toc::from_str(text).expect("the text is a metadata file")
}

fn texts(list: &[String]) -> Vec<&str> {
    list.iter().map(|s| s.as_str()).collect()
}

#[test]
fn dependencies_are_split_and_trimmed() {
    let toc = parsed("##Dependencies: A, B ,C");
    assert_eq!(texts(&toc.dependencies), vec!["A", "B", "C"]);
}

#[test]
fn empty_dependencies_are_an_empty_list() {
    let toc = parsed("##Dependencies:");
    assert!(toc.dependencies.is_empty());
    let toc = parsed("##Dependencies:   ");
    assert!(toc.dependencies.is_empty());
    assert!(Toc::get_dependencies_vec("").is_empty());
}

#[test]
fn dependency_list_keeps_empty_pieces() {
    assert_eq!(texts(&Toc::get_dependencies_vec("A,,B")), vec!["A", "", "B"]);
    assert_eq!(texts(&Toc::get_dependencies_vec("A,")), vec!["A", ""]);
    assert_eq!(texts(&Toc::get_dependencies_vec(" ")), vec![""]);
    assert_eq!(texts(&Toc::get_dependencies_vec("one")), vec!["one"]);
}

#[test]
fn required_deps_is_a_synonym() {
    let toc = parsed("##RequiredDeps: Ace3, LibStub");
    assert_eq!(texts(&toc.dependencies), vec!["Ace3", "LibStub"]);
    assert!(toc.optional_dependencies.is_empty());
}

#[test]
fn optional_dependencies_have_two_names() {
    let toc = parsed("##OptionalDeps: A,B");
    assert_eq!(texts(&toc.optional_dependencies), vec!["A", "B"]);
    let toc = parsed("##OptionalDependencies: C");
    assert_eq!(texts(&toc.optional_dependencies), vec!["C"]);
}

#[test]
fn later_dependencies_replace_earlier_ones() {
    let toc = parsed("##Dependencies: A, B\n##RequiredDeps: C");
    assert_eq!(texts(&toc.dependencies), vec!["C"]);
}

#[test]
fn curse_id_that_is_no_number_fails_the_parse() {
    assert_eq!(
        Toc::from_str("##X-Curse-Project-ID: notanumber"),
        Err(ParseError::CurseId("notanumber".to_string()))
    );
}

#[test]
fn curse_id_failure_stops_at_the_first_bad_line() {
    let text = "##Title: T\n##X-Curse-Project-ID: 12a\n##X-Curse-Project-ID: zz\nfile.lua";
    assert_eq!(Toc::from_str(text), Err(ParseError::CurseId("12a".to_string())));
}

#[test]
fn curse_id_is_an_unsigned_integer() {
    assert_eq!(parsed("##X-Curse-Project-ID: 12345").curse_id, Some(12345));
    assert_eq!(parsed("##X-Curse-Project-ID: +12").curse_id, Some(12));
    assert_eq!(parsed("##X-Curse-Project-ID: 0007").curse_id, Some(7));
    assert_eq!(
        parsed(&format!("##X-Curse-Project-ID: {}", usize::MAX)).curse_id,
        Some(usize::MAX)
    );
    assert!(Toc::from_str("##X-Curse-Project-ID: -1").is_err());
    assert!(Toc::from_str("##X-Curse-Project-ID:").is_err());
    assert!(Toc::from_str("##X-Curse-Project-ID: +").is_err());
    assert!(Toc::from_str("##X-Curse-Project-ID: 1 2").is_err());
    let huge = "340282366920938463463374607431768211456";
    assert!(Toc::from_str(&format!("##X-Curse-Project-ID: {}", huge)).is_err());
}

#[test]
fn curse_id_out_of_range_fails_the_parse() {
    let above = format!("{}0", usize::MAX);
    assert_eq!(
        Toc::from_str(&format!("##X-Curse-Project-ID: {}", above)),
        Err(ParseError::CurseId(above))
    );
}

#[test]
fn load_on_demand_that_is_no_number_is_the_default() {
    let toc = parsed("##LoadOnDemand: notanumber");
    assert_eq!(toc.load_on_demand, Some(0));
}

#[test]
fn load_on_demand_is_a_signed_integer() {
    assert_eq!(parsed("##LoadOnDemand: 1").load_on_demand, Some(1));
    assert_eq!(parsed("##LoadOnDemand: -1").load_on_demand, Some(-1));
    assert_eq!(parsed("##LoadOnDemand: +1").load_on_demand, Some(1));
    assert_eq!(parsed("##LoadOnDemand: 2147483647").load_on_demand, Some(i32::MAX));
    assert_eq!(parsed("##LoadOnDemand: -2147483648").load_on_demand, Some(i32::MIN));
    assert_eq!(parsed("##LoadOnDemand: 2147483648").load_on_demand, Some(0));
    assert_eq!(parsed("##LoadOnDemand: -2147483649").load_on_demand, Some(0));
    assert_eq!(parsed("##LoadOnDemand: 00000000000000000000012").load_on_demand, Some(12));
    assert_eq!(parsed("##LoadOnDemand:").load_on_demand, Some(0));
    assert_eq!(parsed("##LoadOnDemand: -").load_on_demand, Some(0));
    assert_eq!(parsed("##LoadOnDemand: 1.5").load_on_demand, Some(0));
    assert_eq!(parsed("##Title: x").load_on_demand, None);
}

#[test]
fn parsing_twice_gives_equal_results() {
    let text = "## Interface: 100207\n## Title: |cff00ff00Bags|r\n# note\nmain.lua\n##X-Other: 1\n";
    assert_eq!(Toc::from_str(text), Toc::from_str(text));
    let bad = "##X-Curse-Project-ID: x";
    assert_eq!(Toc::from_str(bad), Toc::from_str(bad));
}

#[test]
fn empty_text_is_the_default_metadata() {
    assert_eq!(parsed(""), Toc::default());
    assert_eq!(parsed("\n\n\r\n"), Toc::default());
}

#[test]
fn a_whole_file() {
    let text = "## Interface: 100207\r\n\
## Title: |cffff0000Hello|r World\r\n\
## Notes: |cnGREEN:Go|r!\r\n\
## IconTexture: Interface\\Icons\\x\r\n\
## IconAtlas: atlas\r\n\
## AddonCompartmentFunc: F\r\n\
## AddonCompartmentFuncOnEnter: FE\r\n\
## AddonCompartmentFuncOnLeave: FL\r\n\
## LoadOnDemand: 1\r\n\
## Dependencies: A, B\r\n\
## OptionalDeps: C\r\n\
## LoadWith: W\r\n\
## LoadManagers: M\r\n\
## DefaultState: enabled\r\n\
## SavedVariables: SV\r\n\
## SavedVariablesPerCharacter: SVC\r\n\
## Author: Me\r\n\
## Version: 1.2.3\r\n\
## X-Wago-ID: wago\r\n\
## X-WoWI-ID: wowi\r\n\
## X-Tukui-ProjectID: tukui\r\n\
## X-Curse-Project-ID: 42\r\n\
## X-Website: https://example.org/a:b\r\n\
# a comment\r\n\
\r\n\
core.lua\r\n\
\x20\x20libs\\lib.xml\r\n";
    let toc = parsed(text);
    assert_eq!(toc.interface.as_str(), "10.02.07");
    assert_eq!(toc.title.as_deref(), Some("Hello World"));
    assert_eq!(toc.notes.as_deref(), Some("Go!"));
    assert_eq!(toc.icon_texture.as_deref(), Some("Interface\\Icons\\x"));
    assert_eq!(toc.icon_atlas.as_deref(), Some("atlas"));
    assert_eq!(toc.addon_compartment_func.as_deref(), Some("F"));
    assert_eq!(toc.addon_compartment_func_on_enter.as_deref(), Some("FE"));
    assert_eq!(toc.addon_compartment_func_on_leave.as_deref(), Some("FL"));
    assert_eq!(toc.load_on_demand, Some(1));
    assert_eq!(texts(&toc.dependencies), vec!["A", "B"]);
    assert_eq!(texts(&toc.optional_dependencies), vec!["C"]);
    assert_eq!(toc.load_with.as_deref(), Some("W"));
    assert_eq!(toc.load_managers.as_deref(), Some("M"));
    assert_eq!(toc.default_state, Some(State::Enabled));
    assert_eq!(toc.saved_variables.as_deref(), Some("SV"));
    assert_eq!(toc.saved_variables_per_character.as_deref(), Some("SVC"));
    assert_eq!(toc.author.as_deref(), Some("Me"));
    assert_eq!(toc.version.as_deref(), Some("1.2.3"));
    assert_eq!(toc.wago_id.as_deref(), Some("wago"));
    assert_eq!(toc.wowi_id.as_deref(), Some("wowi"));
    assert_eq!(toc.tukui_id.as_deref(), Some("tukui"));
    assert_eq!(toc.curse_id, Some(42));
    assert_eq!(
        toc.unknown_properties.get("X-Website").map(|s| s.as_str()),
        Some("https://example.org/a:b")
    );
    assert_eq!(toc.unknown_properties.entries.len(), 1);
    assert_eq!(texts(&toc.comments), vec!["a comment"]);
    assert_eq!(texts(&toc.files), vec!["core.lua", "  libs\\lib.xml"]);
}

#[test]
fn a_carriage_return_is_kept_where_no_line_feed_follows() {
    let toc = parsed("a.lua\r\nb.lua\r");
    assert_eq!(texts(&toc.files), vec!["a.lua", "b.lua\r"]);
    let toc = parsed("a\rb.lua\n");
    assert_eq!(texts(&toc.files), vec!["a\rb.lua"]);
}

#[test]
fn a_line_of_white_space_names_a_file() {
    let toc = parsed("a.lua\n   \nb.lua");
    assert_eq!(texts(&toc.files), vec!["a.lua", "   ", "b.lua"]);
}

#[test]
fn keys_are_matched_exactly() {
    let toc = parsed("##title: lower\n##Title : spaced\n## TITLE: upper");
    assert_eq!(toc.title.as_deref(), Some("spaced"));
    assert_eq!(toc.unknown_properties.get("title").map(|s| s.as_str()), Some("lower"));
    assert_eq!(toc.unknown_properties.get("TITLE").map(|s| s.as_str()), Some("upper"));
}

#[test]
fn a_run_of_hashes_is_taken_off_the_key() {
    assert_eq!(parsed("###Title: three").title.as_deref(), Some("three"));
    assert_eq!(parsed("#####  Title  :  five  ").title.as_deref(), Some("five"));
    let toc = parsed("## #Title: inner");
    assert_eq!(toc.title, None);
    assert_eq!(toc.unknown_properties.get("#Title").map(|s| s.as_str()), Some("inner"));
}

#[test]
fn a_property_line_without_colon_says_nothing() {
    assert_eq!(parsed("##Title"), Toc::default());
}

#[test]
fn a_later_property_replaces_an_earlier_one() {
    let toc = parsed("##Title: one\n##Title: two\n##X-A: 1\n##X-B: 2\n##X-A: 3");
    assert_eq!(toc.title.as_deref(), Some("two"));
    assert_eq!(toc.unknown_properties.get("X-A").map(|s| s.as_str()), Some("3"));
    assert_eq!(toc.unknown_properties.get("X-B").map(|s| s.as_str()), Some("2"));
    assert_eq!(toc.unknown_properties.get("X-C"), None);
    assert_eq!(toc.unknown_properties.entries.len(), 2);
}

#[test]
fn the_value_is_split_at_the_first_colon() {
    let toc = parsed("##Notes: a: b : c");
    assert_eq!(toc.notes.as_deref(), Some("a: b : c"));
}

#[test]
fn an_empty_key_is_an_unknown_property() {
    let toc = parsed("##: value");
    assert_eq!(toc.unknown_properties.get("").map(|s| s.as_str()), Some("value"));
}

#[test]
fn comments_are_trimmed() {
    let toc = parsed("#  first  \n#\n#second\n# third # not split");
    assert_eq!(texts(&toc.comments), vec!["first", "", "second", "third # not split"]);
}

#[test]
fn white_space_of_unicode_is_trimmed() {
    let toc = parsed("##Author:\u{a0}\u{2003}Me\u{3000}\t");
    assert_eq!(toc.author.as_deref(), Some("Me"));
    let toc = parsed("##Author: \u{200b}Me");
    assert_eq!(toc.author.as_deref(), Some("\u{200b}Me"));
}

#[test]
fn default_state_is_enabled_only_when_named_so() {
    assert_eq!(parsed("##DefaultState: enabled").default_state, Some(State::Enabled));
    assert_eq!(parsed("##DefaultState: Enabled").default_state, Some(State::Disabled));
    assert_eq!(parsed("##DefaultState: disabled").default_state, Some(State::Disabled));
    assert_eq!(parsed("##DefaultState:").default_state, Some(State::Disabled));
    assert_eq!(parsed("").default_state, None);
}

#[test]
fn state_from_str() {
    assert_eq!(State::from_str("enabled"), Ok(State::Enabled));
    assert_eq!(State::from_str("disabled"), Ok(State::Disabled));
    assert_eq!(State::from_str(" enabled"), Ok(State::Disabled));
    assert_eq!(State::from_str(""), Ok(State::Disabled));
    assert_eq!(State::default(), State::Disabled);
}

#[test]
fn interface_that_is_no_number_is_kept() {
    assert_eq!(parsed("##Interface: 11303").interface.as_str(), "1.13.03");
    assert_eq!(parsed("##Interface: classic").interface.as_str(), "classic");
    assert_eq!(parsed("##Interface: 100207, 11503").interface.as_str(), "100207, 11503");
}

#[test]
fn parse_toc_property_changes_one_field() {
    let mut toc = Toc::default();
    assert_eq!(toc.parse_toc_property("## Author: Someone"), Ok(()));
    let mut expected = Toc::default();
    expected.author = Some("Someone".to_string());
    assert_eq!(toc, expected);
    assert_eq!(toc.parse_toc_property("Version: 2"), Ok(()));
    expected.version = Some("2".to_string());
    assert_eq!(toc, expected);
    assert_eq!(toc.parse_toc_property("no colon here"), Ok(()));
    assert_eq!(toc, expected);
}

#[test]
fn parse_toc_property_leaves_the_metadata_on_failure() {
    let mut toc = parsed("##Title: T\n##X-Curse-Project-ID: 5");
    let before = toc.clone();
    assert_eq!(
        toc.parse_toc_property("##X-Curse-Project-ID: five"),
        Err(ParseError::CurseId("five".to_string()))
    );
    assert_eq!(toc, before);
}

#[test]
fn parse_toc_comment_takes_what_follows_the_first_hash() {
    let mut toc = Toc::default();
    toc.parse_toc_comment("# hello ");
    toc.parse_toc_comment("x # y # z");
    toc.parse_toc_comment("no hash");
    assert_eq!(texts(&toc.comments), vec!["hello", "y # z"]);
}

#[test]
fn title_and_notes_lose_their_markup() {
    let toc = parsed(
        "##Title: |cff112233A|r|cnX:B|r\n##Notes: |cff0000start\n##Author: |cff112233A|r",
    );
    assert_eq!(toc.title.as_deref(), Some("AB"));
    assert_eq!(toc.notes.as_deref(), Some("|cff0000start"));
    assert_eq!(toc.author.as_deref(), Some("|cff112233A|r"));
}

#[test]
fn the_metadata_file_is_named_after_the_directory() {
    assert_eq!(libwau::toc::toc_file_name("Bagnon"), "Bagnon.toc");
    assert_eq!(libwau::toc::toc_file_name(""), ".toc");
}

#[test]
fn parse_errors_in_words() {
    assert_eq!(
        ParseError::CurseId("abc".to_string()).message(),
        "X-Curse-Project-ID is no unsigned integer: abc"
    );
}
