use vstd::prelude::*;
use vstd::string::*;

verus! {

/// `String::push` of the standard library: the character is appended at the
/// end and nothing else changes.
pub assume_specification[ String::push ](s: &mut String, ch: char)
    ensures
        final(s)@ == old(s)@.push(ch),
;

/// Whether two string slices hold the same characters.
pub fn same(a: &str, b: &str) -> (equal: bool)
    ensures
        equal == (a@ == b@),
{
    let left = String::from_str(a);
    let right = String::from_str(b);
    left == right
}

/// `s` with every line feed replaced by a backslash followed by `n`.
pub open spec fn escaped(s: Seq<char>) -> Seq<char>
    decreases s.len(),
{
    if s.len() == 0 {
        s
    } else if s.last() == '\n' {
        escaped(s.drop_last()).push('\\').push('n')
    } else {
        escaped(s.drop_last()).push(s.last())
    }
}

/// Escaping leaves no line feed behind.
pub proof fn escaped_is_one_line(s: Seq<char>)
    ensures
        !escaped(s).contains('\n'),
    decreases s.len(),
{
    if s.len() > 0 {
        escaped_is_one_line(s.drop_last());
        let e = escaped(s);
        assert forall|i: int| 0 <= i < e.len() implies e[i] != '\n' by {
            let inner = escaped(s.drop_last());
            if i < inner.len() {
                assert(inner.contains(inner[i]) || inner[i] != '\n');
                assert(e[i] == inner[i]);
            }
        }
    }
}

/// Appends the escaped form of `piece` to `out`.
pub fn push_escaped(out: &mut String, piece: &str)
    ensures
        final(out)@ == old(out)@ + escaped(piece@),
{
    let ghost start = out@;
    for c in it: piece.chars()
        invariant
            it.seq() == piece@,
            out@ == start + escaped(piece@.take(it.index() as int)),
    {
        proof {
            let k = it.index() as int;
            assert(piece@.take(k + 1).drop_last() =~= piece@.take(k));
            assert(piece@.take(k + 1).last() == c);
        }
        if c == '\n' {
            out.push('\\');
            out.push('n');
        } else {
            out.push(c);
        }
        proof {
            let k = it.index() as int;
            assert(out@ =~= start + escaped(piece@.take(k + 1)));
        }
    }
    proof {
        assert(piece@.take(piece@.len() as int) =~= piece@);
    }
}

/// The decimal digit for a value below ten.
pub open spec fn digit(d: nat) -> char
    recommends
        d < 10,
{
    ((48 + d) as u8) as char
}

/// The decimal numeral of `n`, without leading zeros.
pub open spec fn numeral(n: nat) -> Seq<char>
    decreases n,
{
    if n < 10 {
        seq![digit(n)]
    } else {
        numeral(n / 10).push(digit(n % 10))
    }
}

/// Appends the decimal numeral of `n` to `out`.
pub fn push_numeral(out: &mut String, n: usize)
    ensures
        final(out)@ == old(out)@ + numeral(n as nat),
    decreases n,
{
    if n >= 10 {
        push_numeral(out, n / 10);
    }
    let d: u8 = (n % 10) as u8;
    let c: char = (48u8 + d) as char;
    out.push(c);
    proof {
        assert(c == digit((n % 10) as nat));
        if n < 10 {
            assert(final(out)@ =~= old(out)@ + numeral(n as nat));
        } else {
            assert(final(out)@ =~= old(out)@ + numeral(n as nat));
        }
    }
}

} // verus!
