use coursework::logo::{
    argument_plan, block_step, classify_value, direction_offset, find_closing_line, operator_of,
    procedure_body, procedure_parameters, read_prefix, skipped_in_prefix, strip_sigil, while_body_end,
    ArgPlan, Operator, PrefixTree, ValueName,
};
use coursework::logo_text::{line_words, trim_white_space};

fn strings(v: &[&str]) -> Vec<String> {
    v.iter().map(|s| s.to_string()).collect()
}

#[test]
fn value_names() {
    assert_eq!(classify_value("\"3.14"), ValueName::Number("3.14".to_string()));
    assert_eq!(classify_value("\"TRUE"), ValueName::True);
    assert_eq!(classify_value("\"FALSE"), ValueName::False);
    assert_eq!(classify_value(":foo"), ValueName::Variable("foo".to_string()));
    assert_eq!(classify_value("XCOR"), ValueName::XCor);
    assert_eq!(classify_value("YCOR"), ValueName::YCor);
    assert_eq!(classify_value("HEADING"), ValueName::Heading);
    assert_eq!(classify_value("COLOR"), ValueName::Color);
    assert_eq!(classify_value("UNKNOWN"), ValueName::Unknown);
}

#[test]
fn prefix_words() {
    assert!(skipped_in_prefix("["));
    assert!(skipped_in_prefix("WHILE"));
    assert!(skipped_in_prefix("IFFY"));
    assert!(!skipped_in_prefix("AND"));
    assert_eq!(operator_of("AND"), Some(Operator::And));
    assert_eq!(operator_of("+"), Some(Operator::Add));
    assert_eq!(operator_of("WHILE"), Some(Operator::Condition));
    assert_eq!(operator_of("UNKNOWN"), None);
}

#[test]
fn blocks_are_skipped_and_closed() {
    assert_eq!(block_step(0, "FORWARD"), (0, true));
    assert_eq!(block_step(2, "FORWARD"), (2, false));
    assert_eq!(block_step(1, "IF"), (2, false));
    assert_eq!(block_step(1, "]"), (0, false));
    assert_eq!(block_step(0, "]"), (0, false));
}

#[test]
fn argument_counts() {
    assert_eq!(argument_plan(&strings(&["PENUP"])).ok(), Some(ArgPlan::NoValue));
    assert_eq!(argument_plan(&strings(&["PENDOWN", "x"])).err().unwrap().0, "Wrong number of arguments");
    assert_eq!(argument_plan(&strings(&["FORWARD"])).err().unwrap().0, "Wrong number of arguments");
    assert_eq!(argument_plan(&strings(&["FORWARD", "\"5"])).ok(), Some(ArgPlan::Single));
    assert_eq!(argument_plan(&strings(&["TURN", "+", "\"5", "\"1"])).ok(), Some(ArgPlan::Prefix));
}

#[test]
fn drawing_directions() {
    assert_eq!(direction_offset("LEFT"), 270);
    assert_eq!(direction_offset("RIGHT"), 90);
    assert_eq!(direction_offset("BACK"), 180);
    assert_eq!(direction_offset("FORWARD"), 0);
}

#[test]
fn while_bodies_and_procedures() {
    let lines = strings(&["FORWARD \"1", "IF EQ \"1 \"1 [", "TURN \"2", "]", "]", "PENUP"]);
    assert_eq!(while_body_end(&lines, 0), Some(5));
    assert_eq!(while_body_end(&lines, 5), None);
    assert_eq!(find_closing_line(&lines, 0), Some(3));
    assert_eq!(find_closing_line(&lines, 5), None);
    let proc_lines = strings(&["FORWARD :x", "  END  ", "PENUP"]);
    let (body, next) = procedure_body(&proc_lines, 0).unwrap();
    assert_eq!(body, strings(&["FORWARD :x"]));
    assert_eq!(next, 2);
    assert!(procedure_body(&strings(&["FORWARD :x"]), 0).is_none());
    assert_eq!(procedure_parameters(&strings(&["TO", "box", "\"a", "\"b"])), strings(&["a", "b"]));
    assert_eq!(strip_sigil("\"name"), "name");
}

#[test]
fn words_and_trimming() {
    assert_eq!(line_words("  FORWARD   \"5\tTURN "), strings(&["FORWARD", "\"5", "TURN"]));
    assert!(line_words("   ").is_empty());
    assert_eq!(trim_white_space("\u{3000} END \n"), "END");
    for s in ["a b", " x\u{2003}y ", "\u{85}z"] {
        assert_eq!(line_words(s), s.split_whitespace().map(|w| w.to_string()).collect::<Vec<_>>());
        assert_eq!(trim_white_space(s), s.trim());
    }
}

fn tree(words: &[&str], has_value: &[bool]) -> Option<PrefixTree> {
    read_prefix(&strings(words), &has_value.to_vec())
}

fn leaf(i: usize) -> Box<PrefixTree> {
    Box::new(PrefixTree::Leaf(i))
}

#[test]
fn prefix_expressions_read_into_trees() {
    assert_eq!(tree(&["\"1"], &[true]), Some(PrefixTree::Leaf(0)));
    assert_eq!(tree(&[":foo"], &[false]), None);
    assert_eq!(
        tree(&["AND", "\"1", "\"0"], &[false, true, true]),
        Some(PrefixTree::Node(Operator::And, leaf(1), leaf(2)))
    );
    assert_eq!(
        tree(&["GT", "\"1", "\"2"], &[false, true, true]),
        Some(PrefixTree::Node(Operator::Gt, leaf(1), leaf(2)))
    );
    assert_eq!(tree(&["UNKNOWN", "\"2", "\"1"], &[false, true, true]), None);
    assert_eq!(tree(&["OR", "AND", "\"1", "\"2"], &[false, false, true, true]), None);
    assert_eq!(
        tree(&["EQ", "\"7", "+", "\"2", "\"5"], &[false, true, false, true, true]),
        Some(PrefixTree::Node(
            Operator::Eq,
            leaf(1),
            Box::new(PrefixTree::Node(Operator::Add, leaf(3), leaf(4)))
        ))
    );
}

#[test]
fn prefix_reading_stops_or_passes_over_words() {
    // the IF keyword and an opening bracket are passed over
    assert_eq!(
        tree(&["IF", "EQ", "\"1", "\"1", "["], &[false, false, true, true, false]),
        Some(PrefixTree::Node(Operator::Eq, leaf(2), leaf(3)))
    );
    // two values with no operator leave two trees: no result
    assert_eq!(tree(&["\"1", "\"2"], &[true, true]), None);
    // an operator with a single value below it
    assert_eq!(tree(&["+", "\"2"], &[false, true]), None);
    // nothing to read
    assert_eq!(tree(&[], &[]), None);
}
