//! Splitting a line of shell input into commands separated by `;`.
//!
//! The line is first split into words with shell quoting rules (`shlex`); a `;`
//! that stands alone, or at either end of a word, ends the current command.

use vstd::prelude::*;
use crate::text::{str_equal, string_views};

verus! {

/// What `shlex::split` returns for a text: its words, or `None` when the text
/// cannot be split (such as an unclosed quote).
pub uninterp spec fn shell_words(s: Seq<char>) -> Option<Seq<Seq<char>>>;

/// `shlex::split`: splits `s` into words the way a POSIX shell would. Its result is
/// a function of `s` alone, named `shell_words`; the splitting rules are not stated.
#[verifier::external_body]
fn split_words(s: &str) -> (r: Option<Vec<String>>)
    ensures
        match r {
            Some(v) => shell_words(s@) == Some(string_views(v@)),
            None => shell_words(s@) is None,
        },
{
    shlex::split(s)
}

/// `t` without the `;` characters at its start.
pub open spec fn strip_front(t: Seq<char>) -> Seq<char>
    decreases t.len(),
{
    if t.len() > 0 && t[0] == ';' {
        strip_front(t.drop_first())
    } else {
        t
    }
}

/// `t` without the `;` characters at its end.
pub open spec fn strip_back(t: Seq<char>) -> Seq<char>
    decreases t.len(),
{
    if t.len() > 0 && t.last() == ';' {
        strip_back(t.drop_last())
    } else {
        t
    }
}

/// `t` without the `;` characters at either end.
pub open spec fn trim_semicolons(t: Seq<char>) -> Seq<char> {
    strip_back(strip_front(t))
}

/// The finished commands and the command being built, after one more word.
pub open spec fn split_step(
    state: (Seq<Seq<Seq<char>>>, Seq<Seq<char>>),
    token: Seq<char>,
) -> (Seq<Seq<Seq<char>>>, Seq<Seq<char>>) {
    let (cmds, cmd) = state;
    if token == seq![';'] && cmd.len() > 0 {
        (cmds.push(cmd), Seq::empty())
    } else {
        let starts = token.len() > 0 && token[0] == ';';
        let ends = token.len() > 0 && token.last() == ';';
        let word = trim_semicolons(token);
        let (cmds1, cmd1) = if starts && cmd.len() > 0 {
            (cmds.push(cmd), Seq::empty())
        } else {
            (cmds, cmd)
        };
        let cmd2 = if word.len() > 0 {
            cmd1.push(word)
        } else {
            cmd1
        };
        if ends && cmd2.len() > 0 {
            (cmds1.push(cmd2), Seq::empty())
        } else {
            (cmds1, cmd2)
        }
    }
}

/// The state after a sequence of words.
pub open spec fn split_state(tokens: Seq<Seq<char>>) -> (Seq<Seq<Seq<char>>>, Seq<Seq<char>>)
    decreases tokens.len(),
{
    if tokens.len() == 0 {
        (Seq::empty(), Seq::empty())
    } else {
        split_step(split_state(tokens.drop_last()), tokens.last())
    }
}

/// The commands that a sequence of words makes.
pub open spec fn split_commands(tokens: Seq<Seq<char>>) -> Seq<Seq<Seq<char>>> {
    let (cmds, cmd) = split_state(tokens);
    if cmd.len() > 0 {
        cmds.push(cmd)
    } else {
        cmds
    }
}

/// The character sequences of a list of commands.
pub open spec fn command_views(v: Seq<Vec<String>>) -> Seq<Seq<Seq<char>>> {
    v.map_values(|c: Vec<String>| string_views(c@))
}

proof fn lemma_strip_front_index(t: Seq<char>, i: int)
    requires
        0 <= i <= t.len(),
        forall|j: int| 0 <= j < i ==> t[j] == ';',
        i == t.len() || t[i] != ';',
    ensures
        strip_front(t) == t.subrange(i, t.len() as int),
    decreases i,
{
    if i > 0 {
        assert forall|j: int| 0 <= j < i - 1 implies t.drop_first()[j] == ';' by {
            assert(t.drop_first()[j] == t[j + 1]);
        }
        if i < t.len() {
            assert(t.drop_first()[i - 1] == t[i]);
        }
        lemma_strip_front_index(t.drop_first(), i - 1);
        assert(t.drop_first().subrange(i - 1, t.len() - 1) =~= t.subrange(i, t.len() as int));
    } else {
        assert(t.subrange(0, t.len() as int) =~= t);
    }
}

proof fn lemma_strip_back_index(t: Seq<char>, k: int)
    requires
        0 <= k <= t.len(),
        forall|j: int| k <= j < t.len() ==> t[j] == ';',
        k == 0 || t[k - 1] != ';',
    ensures
        strip_back(t) == t.subrange(0, k),
    decreases t.len() - k,
{
    if k < t.len() {
        assert forall|j: int| k <= j < t.len() - 1 implies t.drop_last()[j] == ';' by {
            assert(t.drop_last()[j] == t[j]);
        }
        if k > 0 {
            assert(t.drop_last()[k - 1] == t[k - 1]);
        }
        lemma_strip_back_index(t.drop_last(), k);
        assert(t.drop_last().subrange(0, k) =~= t.subrange(0, k));
    } else {
        assert(t.subrange(0, k) =~= t);
    }
}

/// `token` without the `;` characters at either end (`str::trim_matches(';')`).
fn trim_semicolon_chars(token: &str) -> (r: String)
    ensures
        r@ == trim_semicolons(token@),
{
    let n = token.unicode_len();
    let mut a: usize = 0;
    while a < n && token.get_char(a) == ';'
        invariant
            n == token@.len(),
            a <= n,
            forall|j: int| 0 <= j < a ==> token@[j] == ';',
        decreases n - a,
    {
        a = a + 1;
    }
    proof { lemma_strip_front_index(token@, a as int); }
    let ghost front = token@.subrange(a as int, n as int);
    let mut b: usize = n;
    while b > a && token.get_char(b - 1) == ';'
        invariant
            n == token@.len(),
            a <= b <= n,
            front == token@.subrange(a as int, n as int),
            forall|j: int| b <= j < n ==> token@[j] == ';',
        decreases b - a,
    {
        b = b - 1;
    }
    proof {
        assert forall|j: int| b - a <= j < front.len() implies front[j] == ';' by {
            assert(front[j] == token@[a + j]);
        }
        if b > a {
            assert(front[b - a - 1] == token@[b - 1]);
        }
        lemma_strip_back_index(front, b - a);
        assert(front.subrange(0, b - a) =~= token@.subrange(a as int, b as int));
    }
    String::from_str(token.substring_char(a, b))
}

/// Splits a line into commands, each a list of words. `None` when the line cannot
/// be split into words.
pub fn parse_line(s: &str) -> (r: Option<Vec<Vec<String>>>)
    ensures
        match shell_words(s@) {
            Some(tokens) => r matches Some(v) && command_views(v@) == split_commands(tokens),
            None => r is None,
        },
{
    match split_words(s) {
        Some(tokens) => Some(commands_of_words(&tokens)),
        None => None,
    }
}

/// Groups the words of a line into commands: a `;` that stands alone, or at either
/// end of a word, ends the current command; the `;` at the ends of a word are
/// dropped, and so are words left empty.
pub fn commands_of_words(tokens: &Vec<String>) -> (r: Vec<Vec<String>>)
    ensures
        command_views(r@) == split_commands(string_views(tokens@)),
{
    let ghost words = string_views(tokens@);
    let mut cmd: Vec<String> = Vec::new();
    let mut cmds: Vec<Vec<String>> = Vec::new();
    let mut i: usize = 0;
    proof { reveal_strlit(";"); }
    while i < tokens.len()
        invariant
            i <= tokens@.len(),
            words == string_views(tokens@),
            ";"@ == seq![';'],
            (command_views(cmds@), string_views(cmd@)) == split_state(words.subrange(0, i as int)),
        decreases tokens@.len() - i,
    {
        let ghost before = (command_views(cmds@), string_views(cmd@));
        assert(words.subrange(0, i + 1).drop_last() =~= words.subrange(0, i as int));
        let token = tokens[i].as_str();
        let ghost t = token@;
        assert(t == words[i as int]);
        if str_equal(token, ";") && cmd.len() > 0 {
            cmds.push(cmd);
            cmd = Vec::new();
            assert(command_views(cmds@) =~= before.0.push(before.1));
            assert(string_views(cmd@) =~= Seq::<Seq<char>>::empty());
        } else {
            let n = token.unicode_len();
            let starts_with_split = n > 0 && token.get_char(0) == ';';
            let ends_with_split = n > 0 && token.get_char(n - 1) == ';';
            let word = trim_semicolon_chars(token);
            if starts_with_split && cmd.len() > 0 {
                let ghost cv = string_views(cmd@);
                let ghost cs = command_views(cmds@);
                cmds.push(cmd);
                cmd = Vec::new();
                assert(command_views(cmds@) =~= cs.push(cv));
                assert(string_views(cmd@) =~= Seq::<Seq<char>>::empty());
            }
            let ghost mid = (command_views(cmds@), string_views(cmd@));
            if word.unicode_len() > 0 {
                cmd.push(word);
                assert(string_views(cmd@) =~= mid.1.push(trim_semicolons(t)));
            }
            if ends_with_split && cmd.len() > 0 {
                let ghost cv = string_views(cmd@);
                let ghost cs = command_views(cmds@);
                cmds.push(cmd);
                cmd = Vec::new();
                assert(command_views(cmds@) =~= cs.push(cv));
                assert(string_views(cmd@) =~= Seq::<Seq<char>>::empty());
            }
        }
        i = i + 1;
    }
    assert(words.subrange(0, tokens@.len() as int) =~= words);
    if cmd.len() > 0 {
        let ghost cv = string_views(cmd@);
        let ghost cs = command_views(cmds@);
        cmds.push(cmd);
        assert(command_views(cmds@) =~= cs.push(cv));
    }
    cmds
}

/// A word that a command can hold: not empty, and neither starting nor ending with `;`.
pub open spec fn good_word(w: Seq<char>) -> bool {
    w.len() > 0 && w[0] != ';' && w.last() != ';'
}

/// A command that the splitting can give: at least one word, all of them good.
pub open spec fn good_command(c: Seq<Seq<char>>) -> bool {
    c.len() > 0 && forall|j: int| 0 <= j < c.len() ==> good_word(#[trigger] c[j])
}

proof fn lemma_strip_front_start(t: Seq<char>)
    ensures
        strip_front(t).len() == 0 || strip_front(t)[0] != ';',
    decreases t.len(),
{
    if t.len() > 0 && t[0] == ';' {
        lemma_strip_front_start(t.drop_first());
    }
}

proof fn lemma_strip_back_prefix(t: Seq<char>)
    ensures
        strip_back(t).len() <= t.len(),
        strip_back(t) == t.subrange(0, strip_back(t).len() as int),
        strip_back(t).len() == 0 || strip_back(t).last() != ';',
    decreases t.len(),
{
    if t.len() > 0 && t.last() == ';' {
        lemma_strip_back_prefix(t.drop_last());
        assert(t.drop_last().subrange(0, strip_back(t).len() as int) =~= t.subrange(0, strip_back(t).len() as int));
    } else {
        assert(t.subrange(0, t.len() as int) =~= t);
    }
}

proof fn lemma_trimmed_word(t: Seq<char>)
    ensures
        trim_semicolons(t).len() > 0 ==> good_word(trim_semicolons(t)),
{
    let f = strip_front(t);
    lemma_strip_front_start(t);
    lemma_strip_back_prefix(f);
    let r = strip_back(f);
    if r.len() > 0 {
        assert(r[0] == f.subrange(0, r.len() as int)[0]);
    }
}

/// Every finished command is good, and so is every word of the command being built.
pub open spec fn good_state(state: (Seq<Seq<Seq<char>>>, Seq<Seq<char>>)) -> bool {
    &&& forall|k: int| 0 <= k < state.0.len() ==> good_command(#[trigger] state.0[k])
    &&& forall|j: int| 0 <= j < state.1.len() ==> good_word(#[trigger] state.1[j])
}

proof fn lemma_split_state_good(tokens: Seq<Seq<char>>)
    ensures
        good_state(split_state(tokens)),
    decreases tokens.len(),
{
    if tokens.len() > 0 {
        lemma_split_state_good(tokens.drop_last());
        let st = split_state(tokens.drop_last());
        let t = tokens.last();
        lemma_trimmed_word(t);
        assert(seq![';'].len() == 1);
        let r = split_step(st, t);
        assert forall|k: int| 0 <= k < r.0.len() implies good_command(#[trigger] r.0[k]) by {
            if k < st.0.len() {
                assert(r.0[k] == st.0[k]);
            }
        }
    }
}

/// Splitting a line never gives an empty command, an empty word, or a word that
/// starts or ends with `;`.
pub proof fn lemma_commands_are_good(tokens: Seq<Seq<char>>)
    ensures
        forall|k: int| 0 <= k < split_commands(tokens).len() ==> good_command(#[trigger] split_commands(tokens)[k]),
{
    lemma_split_state_good(tokens);
}

} // verus!
