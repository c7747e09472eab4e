//! Small text builders: decimal numbers, command slugs and shell quoting.

use vstd::prelude::*;

verus! {

/// The character for a decimal digit.
pub open spec fn digit_char(d: nat) -> char {
    if d == 0 {
        '0'
    } else if d == 1 {
        '1'
    } else if d == 2 {
        '2'
    } else if d == 3 {
        '3'
    } else if d == 4 {
        '4'
    } else if d == 5 {
        '5'
    } else if d == 6 {
        '6'
    } else if d == 7 {
        '7'
    } else if d == 8 {
        '8'
    } else {
        '9'
    }
}

/// The decimal digits of `n`, most significant first, without leading zeros.
pub open spec fn dec(n: nat) -> Seq<char>
    decreases n,
{
    if n < 10 {
        seq![digit_char(n)]
    } else {
        dec(n / 10).push(digit_char(n % 10))
    }
}

/// The decimal form of a signed integer, with a leading `-` when negative.
pub open spec fn dec_int(n: int) -> Seq<char> {
    if n < 0 {
        seq!['-'] + dec((-n) as nat)
    } else {
        dec(n as nat)
    }
}

fn digit_str(d: u64) -> (r: &'static str)
    requires
        d < 10,
    ensures
        r@ == seq![digit_char(d as nat)],
{
    proof {
        reveal_strlit("0");
        reveal_strlit("1");
        reveal_strlit("2");
        reveal_strlit("3");
        reveal_strlit("4");
        reveal_strlit("5");
        reveal_strlit("6");
        reveal_strlit("7");
        reveal_strlit("8");
        reveal_strlit("9");
    }
    if d == 0 {
        "0"
    } else if d == 1 {
        "1"
    } else if d == 2 {
        "2"
    } else if d == 3 {
        "3"
    } else if d == 4 {
        "4"
    } else if d == 5 {
        "5"
    } else if d == 6 {
        "6"
    } else if d == 7 {
        "7"
    } else if d == 8 {
        "8"
    } else {
        "9"
    }
}

/// Writes `n` in decimal.
pub fn format_u64(n: u64) -> (r: String)
    ensures
        r@ == dec(n as nat),
    decreases n,
{
    if n < 10 {
        String::from_str(digit_str(n))
    } else {
        let mut s = format_u64(n / 10);
        s.append(digit_str(n % 10));
        s
    }
}

/// Writes `n` in decimal, with a leading `-` when it is negative.
pub fn format_i64(n: i64) -> (r: String)
    ensures
        r@ == dec_int(n as int),
{
    if n < 0 {
        let magnitude: u64 = (0i128 - n as i128) as u64;
        let digits = format_u64(magnitude);
        let mut s = String::from_str("-");
        proof {
            reveal_strlit("-");
        }
        s.append(digits.as_str());
        s
    } else {
        format_u64(n as u64)
    }
}

/// Whether a character cannot stand in a directory name of a cache slot.
pub open spec fn is_slug_separator(c: char) -> bool {
    c == '/' || c == ' ' || c == '\n'
}

/// What one character of a command becomes in its slug.
pub open spec fn slug_piece(c: char) -> Seq<char> {
    if is_slug_separator(c) {
        seq!['_', '_']
    } else {
        seq![c]
    }
}

/// The slug of a command: each `/`, space and newline becomes `__`.
pub open spec fn slug_of(s: Seq<char>) -> Seq<char>
    decreases s.len(),
{
    if s.len() == 0 {
        Seq::empty()
    } else {
        slug_of(s.drop_last()) + slug_piece(s.last())
    }
}

proof fn lemma_slug_has_no_separator(s: Seq<char>)
    ensures
        forall|j: int| 0 <= j < slug_of(s).len() ==> !is_slug_separator(#[trigger] slug_of(s)[j]),
        slug_of(s).len() >= s.len(),
    decreases s.len(),
{
    if s.len() > 0 {
        lemma_slug_has_no_separator(s.drop_last());
        let a = slug_of(s.drop_last());
        let b = slug_piece(s.last());
        assert forall|j: int| 0 <= j < slug_of(s).len() implies !is_slug_separator(
            #[trigger] slug_of(s)[j],
        ) by {
            if j >= a.len() {
                assert(slug_of(s)[j] == b[j - a.len()]);
            } else {
                assert(slug_of(s)[j] == a[j]);
            }
        }
    }
}

/// The directory name under which results of `command` are cached: each
/// `/`, space and newline becomes `__`. The result holds none of those three
/// characters, and is empty only when the command is.
pub fn command_slug(command: &str) -> (r: String)
    ensures
        r@ == slug_of(command@),
        forall|j: int| 0 <= j < r@.len() ==> !is_slug_separator(#[trigger] r@[j]),
        r@.len() >= command@.len(),
{
    let n = command.unicode_len();
    let mut r = String::new();
    let mut i: usize = 0;
    while i < n
        invariant
            n == command@.len(),
            i <= n,
            r@ == slug_of(command@.subrange(0, i as int)),
        decreases n - i,
    {
        let c = command.get_char(i);
        proof {
            let next = command@.subrange(0, i + 1);
            assert(next.drop_last() =~= command@.subrange(0, i as int));
            assert(next.last() == c);
            reveal_strlit("__");
        }
        if c == '/' || c == ' ' || c == '\n' {
            r.append("__");
        } else {
            r.append(command.substring_char(i, i + 1));
        }
        i = i + 1;
    }
    proof {
        assert(command@.subrange(0, n as int) =~= command@);
        lemma_slug_has_no_separator(command@);
    }
    r
}

/// What one character becomes inside double quotes.
pub open spec fn escape_piece(c: char) -> Seq<char> {
    if c == '"' {
        seq!['\\', '"']
    } else if c == '\\' {
        seq!['\\', '\\', '\\', '\\']
    } else {
        seq![c]
    }
}

/// The characters of `s` with each escaped as `escape_piece` says.
pub open spec fn escaped(s: Seq<char>) -> Seq<char>
    decreases s.len(),
{
    if s.len() == 0 {
        Seq::empty()
    } else {
        escaped(s.drop_last()) + escape_piece(s.last())
    }
}

/// Quotes `s` for a shell command line: wrapped in double quotes, each `"`
/// escaped as `\"` and each backslash written as four.
pub fn shell_escape(s: &str) -> (r: String)
    ensures
        r@ == seq!['"'] + escaped(s@) + seq!['"'],
{
    proof {
        reveal_strlit("\"");
    }
    let n = s.unicode_len();
    let mut body = String::new();
    let mut i: usize = 0;
    while i < n
        invariant
            n == s@.len(),
            i <= n,
            body@ == escaped(s@.subrange(0, i as int)),
        decreases n - i,
    {
        let c = s.get_char(i);
        proof {
            let next = s@.subrange(0, i + 1);
            assert(next.drop_last() =~= s@.subrange(0, i as int));
            assert(next.last() == c);
            reveal_strlit("\\\"");
            reveal_strlit("\\\\\\\\");
        }
        if c == '"' {
            body.append("\\\"");
        } else if c == '\\' {
            body.append("\\\\\\\\");
        } else {
            body.append(s.substring_char(i, i + 1));
        }
        i = i + 1;
    }
    proof {
        assert(s@.subrange(0, n as int) =~= s@);
    }
    let mut r = String::from_str("\"");
    r.append(body.as_str());
    r.append("\"");
    r
}

} // verus!
