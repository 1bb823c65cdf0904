//! The decisions of the Logo interpreter that do not depend on its floating-point
//! values: what a value name refers to, how prefix expressions are read, how
//! `IF`/`WHILE` blocks are skipped and collected, how procedures are collected,
//! and which arguments the drawing commands take.

use vstd::prelude::*;
use crate::text::{chars_of, str_equal, string_views};
use crate::logo_text::{trim_white_space, trim};

verus! {

/// An error that occurs when a command fails to execute.
pub struct CommandError(pub String);

/// What a value name in a Logo program refers to.
#[derive(PartialEq, Eq, Debug)]
pub enum ValueName {
    /// `"` followed by text to be read as a number.
    Number(String),
    /// `"TRUE`, the value 1.
    True,
    /// `"FALSE`, the value 0.
    False,
    /// `:` followed by the name of a variable.
    Variable(String),
    XCor,
    YCor,
    Heading,
    Color,
    /// Anything else: not a value.
    Unknown,
}

/// What a value name refers to, as text.
pub enum ValueNameModel {
    Number(Seq<char>),
    True,
    False,
    Variable(Seq<char>),
    XCor,
    YCor,
    Heading,
    Color,
    Unknown,
}

pub open spec fn value_name_model(v: ValueName) -> ValueNameModel {
    match v {
        ValueName::Number(s) => ValueNameModel::Number(s@),
        ValueName::True => ValueNameModel::True,
        ValueName::False => ValueNameModel::False,
        ValueName::Variable(s) => ValueNameModel::Variable(s@),
        ValueName::XCor => ValueNameModel::XCor,
        ValueName::YCor => ValueNameModel::YCor,
        ValueName::Heading => ValueNameModel::Heading,
        ValueName::Color => ValueNameModel::Color,
        ValueName::Unknown => ValueNameModel::Unknown,
    }
}

/// What `name` refers to: a quoted literal, a variable, one of the turtle's
/// readings, or nothing.
pub open spec fn classify_value_spec(name: Seq<char>) -> ValueNameModel {
    if name.len() > 0 && name[0] == '"' {
        let rest = name.drop_first();
        if rest == "TRUE"@ {
            ValueNameModel::True
        } else if rest == "FALSE"@ {
            ValueNameModel::False
        } else {
            ValueNameModel::Number(rest)
        }
    } else if name.len() > 0 && name[0] == ':' {
        ValueNameModel::Variable(name.drop_first())
    } else if name == "XCOR"@ {
        ValueNameModel::XCor
    } else if name == "YCOR"@ {
        ValueNameModel::YCor
    } else if name == "HEADING"@ {
        ValueNameModel::Heading
    } else if name == "COLOR"@ {
        ValueNameModel::Color
    } else {
        ValueNameModel::Unknown
    }
}

/// Whether `s` starts with the character `c`.
fn starts_with_char(s: &str, c: char) -> (r: bool)
    ensures
        r == (s@.len() > 0 && s@[0] == c),
{
    s.unicode_len() > 0 && s.get_char(0) == c
}

/// Whether `s` starts with `prefix`.
pub fn starts_with(s: &str, prefix: &str) -> (r: bool)
    ensures
        r == (prefix@.len() <= s@.len() && s@.subrange(0, prefix@.len() as int) == prefix@),
{
    let n = prefix.unicode_len();
    if n > s.unicode_len() {
        return false;
    }
    let r = str_equal(s.substring_char(0, n), prefix);
    r
}

/// What a value name refers to.
pub fn classify_value(name: &str) -> (r: ValueName)
    ensures
        value_name_model(r) == classify_value_spec(name@),
{
    if starts_with_char(name, '"') {
        let rest = name.substring_char(1, name.unicode_len());
        assert(rest@ =~= name@.drop_first());
        if str_equal(rest, "TRUE") {
            ValueName::True
        } else if str_equal(rest, "FALSE") {
            ValueName::False
        } else {
            ValueName::Number(String::from_str(rest))
        }
    } else if starts_with_char(name, ':') {
        let rest = name.substring_char(1, name.unicode_len());
        assert(rest@ =~= name@.drop_first());
        ValueName::Variable(String::from_str(rest))
    } else if str_equal(name, "XCOR") {
        ValueName::XCor
    } else if str_equal(name, "YCOR") {
        ValueName::YCor
    } else if str_equal(name, "HEADING") {
        ValueName::Heading
    } else if str_equal(name, "COLOR") {
        ValueName::Color
    } else {
        ValueName::Unknown
    }
}

/// Words that a prefix expression passes over: the opening of a block and the
/// `IF`/`WHILE` keyword (any word starting with `[`, `WHILE` or `IF`).
pub open spec fn skipped_in_prefix_spec(cmd: Seq<char>) -> bool {
    (cmd.len() > 0 && cmd[0] == '[') || (5 <= cmd.len() && cmd.subrange(0, 5) == "WHILE"@) || (2
        <= cmd.len() && cmd.subrange(0, 2) == "IF"@)
}

/// Whether a prefix expression passes over `cmd`.
pub fn skipped_in_prefix(cmd: &str) -> (r: bool)
    ensures
        r == skipped_in_prefix_spec(cmd@),
{
    proof {
        reveal_strlit("WHILE");
        reveal_strlit("IF");
    }
    starts_with_char(cmd, '[') || starts_with(cmd, "WHILE") || starts_with(cmd, "IF")
}

/// An operator of a prefix expression.
#[derive(PartialEq, Eq, Structural, Clone, Copy, Debug)]
pub enum Operator {
    And,
    Or,
    Gt,
    Lt,
    Eq,
    Ne,
    Add,
    Sub,
    Mul,
    Div,
    /// `IF` or `WHILE`: the expression ends with the value computed so far.
    Condition,
}

/// The operator that a word names.
pub open spec fn operator_spec(cmd: Seq<char>) -> Option<Operator> {
    if cmd == "AND"@ {
        Some(Operator::And)
    } else if cmd == "OR"@ {
        Some(Operator::Or)
    } else if cmd == "GT"@ {
        Some(Operator::Gt)
    } else if cmd == "LT"@ {
        Some(Operator::Lt)
    } else if cmd == "EQ"@ {
        Some(Operator::Eq)
    } else if cmd == "NE"@ {
        Some(Operator::Ne)
    } else if cmd == "+"@ {
        Some(Operator::Add)
    } else if cmd == "-"@ {
        Some(Operator::Sub)
    } else if cmd == "*"@ {
        Some(Operator::Mul)
    } else if cmd == "/"@ {
        Some(Operator::Div)
    } else if cmd == "IF"@ || cmd == "WHILE"@ {
        Some(Operator::Condition)
    } else {
        None
    }
}

/// The operator that a word names, if any.
pub fn operator_of(cmd: &str) -> (r: Option<Operator>)
    ensures
        r == operator_spec(cmd@),
        (r == Some(Operator::Add)) <==> cmd@ == "+"@,
        (r == Some(Operator::Sub)) <==> cmd@ == "-"@,
        (r == Some(Operator::Mul)) <==> cmd@ == "*"@,
        (r == Some(Operator::Div)) <==> cmd@ == "/"@,
{
    proof { lemma_operator_words(cmd@); }
    if str_equal(cmd, "AND") {
        Some(Operator::And)
    } else if str_equal(cmd, "OR") {
        Some(Operator::Or)
    } else if str_equal(cmd, "GT") {
        Some(Operator::Gt)
    } else if str_equal(cmd, "LT") {
        Some(Operator::Lt)
    } else if str_equal(cmd, "EQ") {
        Some(Operator::Eq)
    } else if str_equal(cmd, "NE") {
        Some(Operator::Ne)
    } else if str_equal(cmd, "+") {
        Some(Operator::Add)
    } else if str_equal(cmd, "-") {
        Some(Operator::Sub)
    } else if str_equal(cmd, "*") {
        Some(Operator::Mul)
    } else if str_equal(cmd, "/") {
        Some(Operator::Div)
    } else if str_equal(cmd, "IF") || str_equal(cmd, "WHILE") {
        Some(Operator::Condition)
    } else {
        None
    }
}

/// Each operator word names the operation of the same symbol or name, and nothing
/// else names it: `AND`, `OR`, `GT`, `LT`, `EQ`, `NE`, `+`, `-`, `*`, `/`, and `IF` or
/// `WHILE` for a condition; every other word names no operator.
pub proof fn lemma_operator_words(w: Seq<char>)
    ensures
        (operator_spec(w) == Some(Operator::And)) <==> w == "AND"@,
        (operator_spec(w) == Some(Operator::Or)) <==> w == "OR"@,
        (operator_spec(w) == Some(Operator::Gt)) <==> w == "GT"@,
        (operator_spec(w) == Some(Operator::Lt)) <==> w == "LT"@,
        (operator_spec(w) == Some(Operator::Eq)) <==> w == "EQ"@,
        (operator_spec(w) == Some(Operator::Ne)) <==> w == "NE"@,
        (operator_spec(w) == Some(Operator::Add)) <==> w == "+"@,
        (operator_spec(w) == Some(Operator::Sub)) <==> w == "-"@,
        (operator_spec(w) == Some(Operator::Mul)) <==> w == "*"@,
        (operator_spec(w) == Some(Operator::Div)) <==> w == "/"@,
        (operator_spec(w) == Some(Operator::Condition)) <==> (w == "IF"@ || w == "WHILE"@),
        operator_spec(w) is None <==> !(w == "AND"@ || w == "OR"@ || w == "GT"@ || w == "LT"@
            || w == "EQ"@ || w == "NE"@ || w == "+"@ || w == "-"@ || w == "*"@ || w == "/"@
            || w == "IF"@ || w == "WHILE"@),
{
    reveal_strlit("AND");
    reveal_strlit("OR");
    reveal_strlit("GT");
    reveal_strlit("LT");
    reveal_strlit("EQ");
    reveal_strlit("NE");
    reveal_strlit("+");
    reveal_strlit("-");
    reveal_strlit("*");
    reveal_strlit("/");
    reveal_strlit("IF");
    reveal_strlit("WHILE");
    assert("OR"@[0] == 'O' && "GT"@[0] == 'G' && "LT"@[0] == 'L' && "EQ"@[0] == 'E'
        && "NE"@[0] == 'N' && "IF"@[0] == 'I');
    assert("WHILE"@.len() == 5 && "AND"@.len() == 3 && "IF"@.len() == 2);
    if w == "IF"@ || w == "WHILE"@ {
        assert(w != "AND"@ && w != "OR"@ && w != "GT"@ && w != "LT"@ && w != "EQ"@ && w != "NE"@);
        assert(w != "+"@ && w != "-"@ && w != "*"@ && w != "/"@);
    }
    assert("+"@[0] == '+' && "-"@[0] == '-' && "*"@[0] == '*' && "/"@[0] == '/');
}

/// A prefix expression read into a tree. A leaf is the position of a word that has a
/// value; a node applies an operator to the value read first (the top of the stack)
/// and the value read second.
#[derive(PartialEq, Eq, Debug)]
pub enum PrefixTree {
    Leaf(usize),
    Node(Operator, Box<PrefixTree>, Box<PrefixTree>),
}

/// Where the reading of a prefix expression stands.
pub enum PrefixState {
    /// The trees read so far, the last one on top.
    Reading(Seq<PrefixTree>),
    /// The reading stopped with this result.
    Stopped(Option<PrefixTree>),
}

/// Reads the word at position `k`, which has a value or not, onto `stack`. Skipped
/// words leave the stack as it is; a word with a value is pushed; a variable without
/// a value, an operator with fewer than two values below it, or an unknown word
/// stops the reading with no result; `IF`/`WHILE` stops it with the top of the stack.
pub open spec fn prefix_step(word: Seq<char>, has_value: bool, k: nat, stack: Seq<PrefixTree>) -> PrefixState {
    if skipped_in_prefix_spec(word) {
        PrefixState::Reading(stack)
    } else if has_value {
        PrefixState::Reading(stack.push(PrefixTree::Leaf(k as usize)))
    } else if word.len() > 0 && word[0] == ':' {
        PrefixState::Stopped(None)
    } else if stack.len() < 2 {
        PrefixState::Stopped(None)
    } else {
        let first = stack[stack.len() - 1];
        let second = stack[stack.len() - 2];
        let rest = stack.subrange(0, stack.len() - 2);
        match operator_spec(word) {
            Some(Operator::Condition) => PrefixState::Stopped(Some(first)),
            Some(op) => PrefixState::Reading(
                rest.push(PrefixTree::Node(op, Box::new(first), Box::new(second))),
            ),
            None => PrefixState::Stopped(None),
        }
    }
}

/// The state after reading the words from the last one down to position `k`.
pub open spec fn prefix_state(words: Seq<Seq<char>>, has_value: Seq<bool>, k: nat) -> PrefixState
    decreases words.len() - k,
{
    if k >= words.len() {
        PrefixState::Reading(Seq::empty())
    } else {
        match prefix_state(words, has_value, k + 1) {
            PrefixState::Stopped(r) => PrefixState::Stopped(r),
            PrefixState::Reading(stack) => prefix_step(words[k as int], has_value[k as int], k, stack),
        }
    }
}

/// The tree of a prefix expression read from its last word to its first: the one
/// tree left when every word has been read, or nothing.
pub open spec fn prefix_result(words: Seq<Seq<char>>, has_value: Seq<bool>) -> Option<PrefixTree> {
    match prefix_state(words, has_value, 0) {
        PrefixState::Stopped(r) => r,
        PrefixState::Reading(stack) => if stack.len() == 1 {
            Some(stack[0])
        } else {
            None
        },
    }
}

/// Every leaf of `t` is the position of a word that has a value.
pub open spec fn leaves_have_values(t: PrefixTree, has_value: Seq<bool>) -> bool
    decreases t,
{
    match t {
        PrefixTree::Leaf(i) => i < has_value.len() && has_value[i as int],
        PrefixTree::Node(_, first, second) => leaves_have_values(*first, has_value)
            && leaves_have_values(*second, has_value),
    }
}

proof fn lemma_stopped_stays(words: Seq<Seq<char>>, has_value: Seq<bool>, k: nat, j: nat, r: Option<PrefixTree>)
    requires
        j <= k,
        prefix_state(words, has_value, k) == PrefixState::Stopped(r),
    ensures
        prefix_state(words, has_value, j) == PrefixState::Stopped(r),
    decreases k - j,
{
    if j < k {
        lemma_stopped_stays(words, has_value, k, j + 1, r);
    }
}

/// Reads the prefix expression `words` into a tree, given which words have a value
/// (`has_value`, one flag per word). Every leaf of the tree is a word with a value.
pub fn read_prefix(words: &Vec<String>, has_value: &Vec<bool>) -> (r: Option<PrefixTree>)
    requires
        words@.len() == has_value@.len(),
    ensures
        r == prefix_result(string_views(words@), has_value@),
        r matches Some(t) ==> leaves_have_values(t, has_value@),
{
    let ghost ws = string_views(words@);
    let mut stack: Vec<PrefixTree> = Vec::new();
    let mut k: usize = words.len();
    while k > 0
        invariant
            ws == string_views(words@),
            words@.len() == has_value@.len(),
            k <= words@.len(),
            prefix_state(ws, has_value@, k as nat) == PrefixState::Reading(stack@),
            forall|j: int| 0 <= j < stack@.len() ==> leaves_have_values(#[trigger] stack@[j], has_value@),
        decreases k,
    {
        k = k - 1;
        let word = words[k].as_str();
        assert(word@ == ws[k as int]);
        if skipped_in_prefix(word) {
            continue;
        }
        if has_value[k] {
            stack.push(PrefixTree::Leaf(k));
            continue;
        }
        if starts_with_char(word, ':') || stack.len() < 2 {
            proof { lemma_stopped_stays(ws, has_value@, k as nat, 0, None); }
            return None;
        }
        let ghost before = stack@;
        let first = stack.pop().unwrap();
        let second = stack.pop().unwrap();
        assert(stack@ == before.subrange(0, before.len() - 2));
        assert(leaves_have_values(first, has_value@) && leaves_have_values(second, has_value@)) by {
            assert(first == before[before.len() - 1]);
            assert(second == before[before.len() - 2]);
        }
        match operator_of(word) {
            Some(Operator::Condition) => {
                proof { lemma_stopped_stays(ws, has_value@, k as nat, 0, Some(first)); }
                return Some(first);
            },
            Some(op) => {
                stack.push(PrefixTree::Node(op, Box::new(first), Box::new(second)));
            },
            None => {
                proof { lemma_stopped_stays(ws, has_value@, k as nat, 0, None); }
                return None;
            },
        }
    }
    if stack.len() == 1 {
        stack.pop()
    } else {
        None
    }
}

/// The block depth after a line whose first word is `first`, and whether the line
/// is to be carried out. `]` closes a block; inside a skipped block nothing is
/// carried out, and `IF`/`WHILE` open a further block.
pub open spec fn block_step_spec(block: i32, first: Seq<char>) -> (i32, bool) {
    if first == "]"@ {
        (if block > 0 {
            (block - 1) as i32
        } else {
            block
        }, false)
    } else if block > 0 {
        (if first == "WHILE"@ || first == "IF"@ {
            (block + 1) as i32
        } else {
            block
        }, false)
    } else {
        (block, true)
    }
}

/// A block depth that starts at zero or above stays there.
pub proof fn lemma_block_depth_never_negative(block: i32, first: Seq<char>)
    requires
        0 <= block < i32::MAX,
    ensures
        block_step_spec(block, first).0 >= 0,
{
}

/// The depth counts the open brackets: a `]` closes exactly one open block (none when
/// no block is open); inside a skipped block `IF` and `WHILE` open exactly one more
/// and any other line leaves the depth as it is; outside every block the depth stays.
/// A line is carried out exactly when no block is open and it is not a `]`.
pub proof fn lemma_block_depth_counts_brackets(block: i32, first: Seq<char>)
    ensures
        first == "]"@ && block > 0 ==> block_step_spec(block, first).0 == block - 1,
        first == "]"@ && block <= 0 ==> block_step_spec(block, first).0 == block,
        first != "]"@ && 0 < block < i32::MAX && (first == "IF"@ || first == "WHILE"@)
            ==> block_step_spec(block, first).0 == block + 1,
        first != "]"@ && block > 0 && first != "IF"@ && first != "WHILE"@
            ==> block_step_spec(block, first).0 == block,
        first != "]"@ && block <= 0 ==> block_step_spec(block, first).0 == block,
        block_step_spec(block, first).1 <==> (block <= 0 && first != "]"@),
{
}

/// Updates the block depth for a line, and says whether the line is to be carried out.
pub fn block_step(block: i32, first: &str) -> (r: (i32, bool))
    requires
        block < i32::MAX,
    ensures
        r == block_step_spec(block, first@),
{
    if str_equal(first, "]") {
        if block > 0 {
            (block - 1, false)
        } else {
            (block, false)
        }
    } else if block > 0 {
        if str_equal(first, "WHILE") || str_equal(first, "IF") {
            (block + 1, false)
        } else {
            (block, false)
        }
    } else {
        (block, true)
    }
}

/// How a command takes its value.
#[derive(PartialEq, Eq, Structural, Clone, Copy, Debug)]
pub enum ArgPlan {
    /// No value (`PENUP`, `PENDOWN`); the value is 0.
    NoValue,
    /// The value of the one word after the command.
    Single,
    /// The value of the prefix expression made of every word after the command.
    Prefix,
}

/// The commands that take no value.
pub open spec fn is_pen_command(c: Seq<char>) -> bool {
    c == "PENUP"@ || c == "PENDOWN"@
}

/// The commands that take one value.
pub open spec fn is_value_command(c: Seq<char>) -> bool {
    c == "FORWARD"@ || c == "BACK"@ || c == "RIGHT"@ || c == "LEFT"@ || c == "SETPENCOLOR"@
        || c == "TURN"@ || c == "SETHEADING"@ || c == "SETX"@ || c == "SETY"@
}

/// How the value of a pen or drawing command is to be found from the number of
/// words on its line, or the error for a wrong number of words.
pub open spec fn argument_plan_spec(command: Seq<char>, word_count: nat) -> Result<ArgPlan, ()> {
    if is_pen_command(command) {
        if word_count > 1 {
            Err(())
        } else {
            Ok(ArgPlan::NoValue)
        }
    } else if word_count < 2 {
        Err(())
    } else if word_count > 2 {
        Ok(ArgPlan::Prefix)
    } else {
        Ok(ArgPlan::Single)
    }
}

/// How the pen or drawing command that starts `parts` takes its value; the error
/// "Wrong number of arguments" when it has the wrong number of words.
pub fn argument_plan(parts: &Vec<String>) -> (r: Result<ArgPlan, CommandError>)
    requires
        parts@.len() > 0,
        is_pen_command(parts@[0]@) || is_value_command(parts@[0]@),
    ensures
        match argument_plan_spec(parts@[0]@, parts@.len()) {
            Ok(p) => r matches Ok(q) && q == p,
            Err(_) => r matches Err(e) && e.0@ == "Wrong number of arguments"@,
        },
{
    let command = parts[0].as_str();
    let n = parts.len();
    if str_equal(command, "PENUP") || str_equal(command, "PENDOWN") {
        if n > 1 {
            Err(CommandError(String::from_str("Wrong number of arguments")))
        } else {
            Ok(ArgPlan::NoValue)
        }
    } else if n < 2 {
        Err(CommandError(String::from_str("Wrong number of arguments")))
    } else if n > 2 {
        Ok(ArgPlan::Prefix)
    } else {
        Ok(ArgPlan::Single)
    }
}

/// The turn, in degrees, that a drawing direction adds to the heading.
pub open spec fn direction_offset_spec(arg: Seq<char>) -> i32 {
    if arg == "LEFT"@ {
        270
    } else if arg == "RIGHT"@ {
        90
    } else if arg == "BACK"@ {
        180
    } else {
        0
    }
}

/// The turn that a drawing command adds to the heading: 270 for LEFT, 90 for RIGHT,
/// 180 for BACK, none for FORWARD.
pub fn direction_offset(arg: &str) -> (r: i32)
    ensures
        r == direction_offset_spec(arg@),
{
    if str_equal(arg, "LEFT") {
        270
    } else if str_equal(arg, "RIGHT") {
        90
    } else if str_equal(arg, "BACK") {
        180
    } else {
        0
    }
}

/// Whether `s` holds the character `c`.
pub fn contains_char(s: &str, c: char) -> (r: bool)
    ensures
        r == s@.contains(c),
{
    let chars = chars_of(s);
    let mut i: usize = 0;
    while i < chars.len()
        invariant
            chars@ == s@,
            i <= chars@.len(),
            forall|j: int| 0 <= j < i ==> chars@[j] != c,
        decreases chars@.len() - i,
    {
        if chars[i] == c {
            assert(s@[i as int] == c);
            return true;
        }
        i = i + 1;
    }
    false
}

/// Where the block that is open at `depth` before line `i` ends: the position just
/// after the line that closes it. A line holding `[` opens a block; otherwise a line
/// holding `]` closes one.
pub open spec fn block_end(lines: Seq<Seq<char>>, i: int, depth: int) -> Option<int>
    decreases lines.len() - i,
{
    if i < 0 || i >= lines.len() {
        None
    } else {
        let d = if lines[i].contains('[') {
            depth + 1
        } else if lines[i].contains(']') {
            depth - 1
        } else {
            depth
        };
        if d == 0 {
            Some(i + 1)
        } else {
            block_end(lines, i + 1, d)
        }
    }
}

/// The end of the `WHILE` body that starts at line `start`: the position just after
/// its closing line, or `None` when the lines run out first.
pub fn while_body_end(lines: &Vec<String>, start: usize) -> (r: Option<usize>)
    requires
        start <= lines@.len(),
        lines@.len() < i32::MAX,
    ensures
        match block_end(string_views(lines@), start as int, 1) {
            Some(e) => r == Some(e as usize),
            None => r is None,
        },
{
    let ghost ls = string_views(lines@);
    let mut depth: i32 = 1;
    let mut i: usize = start;
    while i < lines.len()
        invariant
            ls == string_views(lines@),
            start <= i <= lines@.len(),
            lines@.len() < i32::MAX,
            1 <= depth <= 1 + i - start,
            block_end(ls, start as int, 1) == block_end(ls, i as int, depth as int),
        decreases lines@.len() - i,
    {
        let line = lines[i].as_str();
        assert(line@ == ls[i as int]);
        if contains_char(line, '[') {
            depth = depth + 1;
        } else if contains_char(line, ']') {
            depth = depth - 1;
        }
        if depth == 0 {
            return Some(i + 1);
        }
        i = i + 1;
    }
    None
}

/// The position of the first line from `start` on that holds `]`, if there is one.
pub fn find_closing_line(lines: &Vec<String>, start: usize) -> (r: Option<usize>)
    ensures
        match r {
            Some(j) => start <= j < lines@.len() && string_views(lines@)[j as int].contains(']')
                && forall|k: int| start <= k < j ==> !string_views(lines@)[k].contains(']'),
            None => forall|k: int| start <= k < lines@.len() ==> !string_views(lines@)[k].contains(']'),
        },
{
    let mut j: usize = start;
    while j < lines.len()
        invariant
            start <= j,
            forall|k: int| start <= k < j && k < lines@.len() ==> !string_views(lines@)[k].contains(']'),
        decreases lines@.len() - j,
    {
        assert(lines@[j as int]@ == string_views(lines@)[j as int]);
        if contains_char(lines[j].as_str(), ']') {
            return Some(j);
        }
        j = j + 1;
    }
    None
}

/// The first line from `start` on that reads `END` once trimmed.
pub open spec fn is_end_line(line: Seq<char>) -> bool {
    trim(line) == "END"@
}

/// The body of a procedure that starts at line `start`: its lines up to the first
/// `END` line, and the position after that line; `None` when there is no `END` line.
pub fn procedure_body(lines: &Vec<String>, start: usize) -> (r: Option<(Vec<String>, usize)>)
    requires
        start <= lines@.len(),
    ensures
        match r {
            Some((body, next)) => {
                &&& start < next <= lines@.len()
                &&& is_end_line(lines@[next - 1]@)
                &&& forall|k: int| start <= k < next - 1 ==> !is_end_line(#[trigger] lines@[k]@)
                &&& string_views(body@) == string_views(lines@).subrange(start as int, next - 1)
            },
            None => forall|k: int| start <= k < lines@.len() ==> !is_end_line(#[trigger] lines@[k]@),
        },
{
    let mut body: Vec<String> = Vec::new();
    let mut i: usize = start;
    while i < lines.len()
        invariant
            start <= i <= lines@.len(),
            forall|k: int| start <= k < i ==> !is_end_line(#[trigger] lines@[k]@),
            string_views(body@) == string_views(lines@).subrange(start as int, i as int),
        decreases lines@.len() - i,
    {
        let trimmed = trim_white_space(lines[i].as_str());
        if str_equal(trimmed.as_str(), "END") {
            return Some((body, i + 1));
        }
        let ghost before = string_views(body@);
        body.push(lines[i].clone());
        assert(string_views(body@) =~= before.push(lines@[i as int]@));
        assert(string_views(body@) =~= string_views(lines@).subrange(start as int, i + 1));
        i = i + 1;
    }
    None
}

/// `word` without its first character, which must be ASCII (a sigil such as `"` or `:`).
pub fn strip_sigil(word: &str) -> (r: String)
    requires
        word@.len() > 0,
        (word@[0] as u32) < 128,
    ensures
        r@ == word@.drop_first(),
{
    let rest = word.substring_char(1, word.unicode_len());
    assert(rest@ =~= word@.drop_first());
    String::from_str(rest)
}

/// The parameter names of a procedure: the words after its name, each without its
/// leading `:`.
pub fn procedure_parameters(parts: &Vec<String>) -> (r: Vec<String>)
    requires
        forall|k: int| 2 <= k < parts@.len() ==> #[trigger] parts@[k]@.len() > 0 && (parts@[k]@[0] as u32) < 128,
    ensures
        r@.len() == if parts@.len() > 2 { parts@.len() - 2 } else { 0 },
        forall|k: int| 0 <= k < r@.len() ==> #[trigger] r@[k]@ == parts@[k + 2]@.drop_first(),
{
    let mut out: Vec<String> = Vec::new();
    let mut k: usize = 2;
    while k < parts.len()
        invariant
            2 <= k,
            k <= parts@.len() || (parts@.len() < 2 && k == 2),
            out@.len() == k - 2,
            forall|k2: int| 2 <= k2 < parts@.len() ==> #[trigger] parts@[k2]@.len() > 0 && (parts@[k2]@[0] as u32) < 128,
            forall|m: int| 0 <= m < out@.len() ==> #[trigger] out@[m]@ == parts@[m + 2]@.drop_first(),
        decreases parts@.len() - k,
    {
        out.push(strip_sigil(parts[k].as_str()));
        k = k + 1;
    }
    out
}

} // verus!
