//! Remote machines of the parallel command runner: reading their specifications
//! (`address:port/threads`), the command line that starts the runner on them, and
//! the arguments of the `ssh` command that reaches them.

use vstd::prelude::*;
use crate::text::chars_of;
use crate::decimal::{parse_u16, parse_u32, parse_unsigned, decimal, to_decimal, lemma_decimal_round_trip, lemma_decimal_digits, is_digit};
use crate::text::string_views;

verus! {

/// A remote machine that commands can be sent to.
#[derive(Debug, Clone, PartialEq, Eq)]
pub struct Remote {
    pub addr: String,
    pub port: u16,
}

/// Why a remote specification could not be read.
#[derive(PartialEq, Eq, Structural, Clone, Copy, Debug)]
pub enum RemoteError {
    /// There is no `:` or no `/`.
    MissingSeparator,
    /// The first `/` comes before the first `:`, so there is no port between them.
    SlashBeforeColon,
    /// The text between the first `:` and the first `/` is not a `u16`.
    InvalidPort,
    /// The text after the first `/` is not a `u32`.
    InvalidThreads,
}

/// The position of the first `c` in `s`, or the length of `s` when there is none.
pub open spec fn index_of(s: Seq<char>, c: char) -> int
    decreases s.len(),
{
    if s.len() == 0 {
        0
    } else if s[0] == c {
        0
    } else {
        1 + index_of(s.drop_first(), c)
    }
}

/// Address, port and thread count that a specification gives, or why it gives none.
pub open spec fn remote_spec(s: Seq<char>) -> Result<(Seq<char>, u16, u32), RemoteError> {
    let colon = index_of(s, ':');
    let slash = index_of(s, '/');
    if colon == s.len() || slash == s.len() {
        Err(RemoteError::MissingSeparator)
    } else if slash < colon + 1 {
        Err(RemoteError::SlashBeforeColon)
    } else {
        match parse_unsigned(s.subrange(colon + 1, slash), u16::MAX as nat) {
            None => Err(RemoteError::InvalidPort),
            Some(port) => match parse_unsigned(s.subrange(slash + 1, s.len() as int), u32::MAX as nat) {
                None => Err(RemoteError::InvalidThreads),
                Some(threads) => Ok((s.subrange(0, colon), port as u16, threads as u32)),
            },
        }
    }
}

proof fn lemma_index_of(s: Seq<char>, c: char, i: int)
    requires
        0 <= i <= s.len(),
        forall|j: int| 0 <= j < i ==> s[j] != c,
        i == s.len() || s[i] == c,
    ensures
        index_of(s, c) == i,
    decreases i,
{
    if i > 0 {
        assert forall|j: int| 0 <= j < i - 1 implies s.drop_first()[j] != c by {
            assert(s.drop_first()[j] == s[j + 1]);
        }
        if i < s.len() {
            assert(s.drop_first()[i - 1] == s[i]);
        }
        lemma_index_of(s.drop_first(), c, i - 1);
    }
}

/// The position of the first `c` among `chars`, or their number when there is none.
fn find_char(chars: &Vec<char>, c: char) -> (r: usize)
    ensures
        r == index_of(chars@, c),
        r <= chars@.len(),
{
    let mut i: usize = 0;
    while i < chars.len() && chars[i] != c
        invariant
            i <= chars@.len(),
            forall|j: int| 0 <= j < i ==> chars@[j] != c,
        decreases chars@.len() - i,
    {
        i = i + 1;
    }
    proof { lemma_index_of(chars@, c, i as int); }
    i
}

/// Reads a remote specification `address:port/threads`.
pub fn parse_remote(spec: &str) -> (r: Result<(Remote, u32), RemoteError>)
    ensures
        match remote_spec(spec@) {
            Ok((addr, port, threads)) => r matches Ok((remote, t)) && remote.addr@ == addr
                && remote.port == port && t == threads,
            Err(e) => r == Err::<(Remote, u32), RemoteError>(e),
        },
{
    let chars = chars_of(spec);
    let colon = find_char(&chars, ':');
    let slash = find_char(&chars, '/');
    if colon == chars.len() || slash == chars.len() {
        return Err(RemoteError::MissingSeparator);
    }
    if slash < colon + 1 {
        return Err(RemoteError::SlashBeforeColon);
    }
    let port = match parse_u16(spec.substring_char(colon + 1, slash)) {
        Some(p) => p,
        None => return Err(RemoteError::InvalidPort),
    };
    let threads = match parse_u32(spec.substring_char(slash + 1, chars.len())) {
        Some(t) => t,
        None => return Err(RemoteError::InvalidThreads),
    };
    let addr = String::from_str(spec.substring_char(0, colon));
    Ok((Remote { addr, port }, threads))
}

/// The remotes and the thread count after reading every specification in turn,
/// or the first problem met. Each specification sets the thread count anew.
pub open spec fn remotes_spec(specs: Seq<Seq<char>>, threads: u32) -> Result<
    (Seq<(Seq<char>, u16)>, u32),
    RemoteError,
>
    decreases specs.len(),
{
    if specs.len() == 0 {
        Ok((Seq::empty(), threads))
    } else {
        match remotes_spec(specs.drop_last(), threads) {
            Err(e) => Err(e),
            Ok((remotes, _)) => match remote_spec(specs.last()) {
                Err(e) => Err(e),
                Ok((addr, port, t)) => Ok((remotes.push((addr, port)), t)),
            },
        }
    }
}

/// The address and port of each remote.
pub open spec fn remote_views(v: Seq<Remote>) -> Seq<(Seq<char>, u16)> {
    v.map_values(|r: Remote| (r.addr@, r.port))
}

/// Reads every remote specification in turn; the thread count is that of the last
/// one, or `threads` when there is none.
pub fn parse_remotes(specs: &Vec<String>, threads: u32) -> (r: Result<(Vec<Remote>, u32), RemoteError>)
    ensures
        match remotes_spec(string_views(specs@), threads) {
            Ok((remotes, t)) => r matches Ok((v, t2)) && remote_views(v@) == remotes && t2 == t,
            Err(e) => r == Err::<(Vec<Remote>, u32), RemoteError>(e),
        },
{
    let ghost s = string_views(specs@);
    let mut remotes: Vec<Remote> = Vec::new();
    let mut t = threads;
    let mut i: usize = 0;
    assert(s.subrange(0, 0) =~= Seq::<Seq<char>>::empty());
    assert(remote_views(remotes@) =~= Seq::<(Seq<char>, u16)>::empty());
    while i < specs.len()
        invariant
            i <= specs@.len(),
            s == string_views(specs@),
            remotes_spec(s.subrange(0, i as int), threads) == Ok::<(Seq<(Seq<char>, u16)>, u32), RemoteError>(
                (remote_views(remotes@), t),
            ),
        decreases specs@.len() - i,
    {
        assert(s.subrange(0, i + 1).drop_last() =~= s.subrange(0, i as int));
        assert(s.subrange(0, i + 1).last() == specs@[i as int]@);
        match parse_remote(specs[i].as_str()) {
            Ok((remote, n)) => {
                let ghost before = remote_views(remotes@);
                remotes.push(remote);
                assert(remote_views(remotes@) =~= before.push((remotes@.last().addr@, remotes@.last().port)));
                t = n;
            },
            Err(e) => {
                proof { lemma_remotes_error_stays(s, i as int, threads); }
                return Err(e);
            },
        }
        i = i + 1;
    }
    assert(s.subrange(0, specs@.len() as int) =~= s);
    Ok((remotes, t))
}

/// Once a specification cannot be read, reading more of them keeps the error.
proof fn lemma_remotes_error_stays(s: Seq<Seq<char>>, i: int, threads: u32)
    requires
        0 <= i < s.len(),
        remotes_spec(s.subrange(0, i + 1), threads) is Err,
    ensures
        remotes_spec(s, threads) == remotes_spec(s.subrange(0, i + 1), threads),
    decreases s.len() - i,
{
    if i + 1 < s.len() {
        assert(s.drop_last().subrange(0, i + 1) =~= s.subrange(0, i + 1));
        lemma_remotes_error_stays(s.drop_last(), i, threads);
    } else {
        assert(s.subrange(0, i + 1) =~= s);
    }
}

/// Reading a list of specifications succeeds exactly when each of them reads; then
/// there is one remote per specification, with its address and port, and the thread
/// count is that of the last specification (the starting count when there is none).
pub proof fn lemma_remotes_read_each_specification(specs: Seq<Seq<char>>, threads: u32)
    ensures
        remotes_spec(specs, threads) is Ok <==> forall|i: int| 0 <= i < specs.len() ==> #[trigger] remote_spec(specs[i]) is Ok,
        remotes_spec(specs, threads) matches Ok((rs, t)) ==> {
            &&& rs.len() == specs.len()
            &&& forall|i: int| 0 <= i < specs.len() ==> (#[trigger] remote_spec(specs[i]) matches Ok((a, p, _)) && rs[i] == (a, p))
            &&& specs.len() == 0 ==> t == threads
            &&& specs.len() > 0 ==> (remote_spec(specs.last()) matches Ok((_, _, n)) && t == n)
        },
    decreases specs.len(),
{
    if specs.len() > 0 {
        let init = specs.drop_last();
        lemma_remotes_read_each_specification(init, threads);
        assert forall|i: int| 0 <= i < init.len() implies #[trigger] init[i] == specs[i] by {}
        if remotes_spec(specs, threads) is Ok {
            assert forall|i: int| 0 <= i < specs.len() implies #[trigger] remote_spec(specs[i]) is Ok by {
                if i < init.len() {
                    assert(remote_spec(init[i]) is Ok);
                }
            }
        }
        if forall|i: int| 0 <= i < specs.len() ==> #[trigger] remote_spec(specs[i]) is Ok {
            assert forall|i: int| 0 <= i < init.len() implies #[trigger] remote_spec(init[i]) is Ok by {
                assert(remote_spec(specs[i]) is Ok);
            }
            assert(remote_spec(specs[specs.len() - 1]) is Ok);
        }
        if remotes_spec(specs, threads) is Ok {
            let (rs, t) = remotes_spec(specs, threads)->Ok_0;
            let (rs0, t0) = remotes_spec(init, threads)->Ok_0;
            assert(rs == rs0.push(rs[rs.len() - 1]));
            assert forall|i: int| 0 <= i < specs.len() implies (#[trigger] remote_spec(specs[i]) matches Ok((a, p, _)) && rs[i] == (a, p)) by {
                if i < init.len() {
                    assert(remote_spec(init[i]) matches Ok((a, p, _)) && rs0[i] == (a, p));
                }
            }
        }
    }
}

/// The name of a termination mode: lazy for 1, eager for 2, never otherwise.
pub open spec fn termination_name(termination: i32) -> Seq<char> {
    if termination == 1 {
        "lazy"@
    } else if termination == 2 {
        "eager"@
    } else {
        "never"@
    }
}

/// The command line that starts the runner on a remote machine with the same
/// termination mode and thread count: `pars -e MODE -J THREADS` and a newline.
pub fn remote_invocation(termination: i32, threads: u32) -> (r: String)
    ensures
        r@ == "pars -e "@ + termination_name(termination) + " -J "@ + decimal(threads as nat) + "\n"@,
{
    let term = if termination == 1 {
        "lazy"
    } else if termination == 2 {
        "eager"
    } else {
        "never"
    };
    let number = to_decimal(threads as u64);
    String::from_str("pars -e ").concat(term).concat(" -J ").concat(number.as_str()).concat("\n")
}

/// The arguments of the `ssh` command that runs `program` with `args` on `remote`,
/// using the identity file when one is given.
pub open spec fn ssh_args_spec(
    addr: Seq<char>,
    port: u16,
    identity: Option<Seq<char>>,
    program: Seq<char>,
    args: Seq<Seq<char>>,
) -> Seq<Seq<char>> {
    seq!["-p"@, decimal(port as nat), addr] + match identity {
        Some(p) => seq!["-i"@, p],
        None => Seq::empty(),
    } + seq!["--"@, program] + args
}

/// The arguments that make `ssh` run `program args...` on `remote`:
/// `-p PORT ADDRESS [-i IDENTITY] -- PROGRAM ARGS...`.
pub fn ssh_arguments(remote: &Remote, identity: Option<String>, program: &str, args: &Vec<String>) -> (r: Vec<String>)
    ensures
        string_views(r@) == ssh_args_spec(
            remote.addr@,
            remote.port,
            match identity {
                Some(p) => Some(p@),
                None => None,
            },
            program@,
            string_views(args@),
        ),
{
    let mut out: Vec<String> = Vec::new();
    out.push(String::from_str("-p"));
    out.push(to_decimal(remote.port as u64));
    out.push(remote.addr.clone());
    let ghost id_part: Seq<Seq<char>> = match &identity {
        Some(p) => seq!["-i"@, p@],
        None => Seq::empty(),
    };
    match identity {
        Some(path) => {
            out.push(String::from_str("-i"));
            out.push(path);
        },
        None => {},
    }
    out.push(String::from_str("--"));
    out.push(String::from_str(program));
    let ghost head = string_views(out@);
    assert(head =~= seq!["-p"@, decimal(remote.port as nat), remote.addr@] + id_part + seq!["--"@, program@]);
    let mut i: usize = 0;
    while i < args.len()
        invariant
            i <= args@.len(),
            string_views(out@) =~= head + string_views(args@).subrange(0, i as int),
        decreases args@.len() - i,
    {
        let ghost prev = string_views(out@);
        out.push(args[i].clone());
        assert(string_views(out@) =~= prev.push(args@[i as int]@));
        assert(string_views(args@).subrange(0, i + 1) =~= string_views(args@).subrange(0, i as int).push(args@[i as int]@));
        i = i + 1;
    }
    assert(string_views(args@).subrange(0, args@.len() as int) =~= string_views(args@));
    out
}

/// The specification text for a remote: `address:port/threads`.
pub open spec fn remote_text(addr: Seq<char>, port: u16, threads: u32) -> Seq<char> {
    addr + seq![':'] + decimal(port as nat) + seq!['/'] + decimal(threads as nat)
}

proof fn lemma_decimal_has_no_separator(n: nat)
    ensures
        !decimal(n).contains(':'),
        !decimal(n).contains('/'),
{
    lemma_decimal_digits(n);
    assert forall|i: int| 0 <= i < decimal(n).len() implies decimal(n)[i] != ':' && decimal(n)[i] != '/' by {
        assert(is_digit(decimal(n)[i]));
    }
}

/// Writing a remote's address, port and thread count as a specification and reading
/// it back gives them again, when the address holds neither `:` nor `/`.
pub proof fn lemma_remote_text_round_trip(addr: Seq<char>, port: u16, threads: u32)
    requires
        !addr.contains(':'),
        !addr.contains('/'),
    ensures
        remote_spec(remote_text(addr, port, threads)) == Ok::<(Seq<char>, u16, u32), RemoteError>((addr, port, threads)),
{
    let p = decimal(port as nat);
    let t = decimal(threads as nat);
    let s = remote_text(addr, port, threads);
    lemma_decimal_has_no_separator(port as nat);
    lemma_decimal_has_no_separator(threads as nat);
    let colon = addr.len() as int;
    let slash = colon + 1 + p.len();
    assert forall|j: int| 0 <= j < colon implies s[j] != ':' by {
        assert(s[j] == addr[j]);
    }
    assert(s[colon] == ':');
    lemma_index_of(s, ':', colon);
    assert forall|j: int| 0 <= j < slash implies s[j] != '/' by {
        if j < colon {
            assert(s[j] == addr[j]);
        } else if j > colon {
            assert(s[j] == p[j - colon - 1]);
        }
    }
    assert(s[slash] == '/');
    lemma_index_of(s, '/', slash);
    assert(s.subrange(colon + 1, slash) =~= p);
    assert(s.subrange(slash + 1, s.len() as int) =~= t);
    assert(s.subrange(0, colon) =~= addr);
    lemma_decimal_round_trip(port as nat, u16::MAX as nat);
    lemma_decimal_round_trip(threads as nat, u32::MAX as nat);
}

} // verus!
