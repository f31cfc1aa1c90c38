use vstd::prelude::*;
use vstd::string::StrSliceExecFns;

verus! {

/// The pieces of `s` that end before index `n`, and where the piece that is
/// not ended yet starts. A tilde ends a piece.
pub open spec fn pieces_before(s: Seq<char>, n: int) -> (Seq<Seq<char>>, int)
    decreases n,
{
    if n <= 0 {
        (Seq::empty(), 0)
    } else {
        let (done, start) = pieces_before(s, n - 1);
        if s[n - 1] == '~' {
            (done.push(s.subrange(start, n - 1)), n)
        } else {
            (done, start)
        }
    }
}

/// The pieces that tildes cut a text into: one more than it has tildes, and
/// empty where two tildes meet or one stands at an end.
pub open spec fn tilde_separated(s: Seq<char>) -> Seq<Seq<char>> {
    let (done, start) = pieces_before(s, s.len() as int);
    done.push(s.subrange(start, s.len() as int))
}

/// Reads the list of ignore patterns off one argument, in which tildes
/// separate them. It never fails.
pub fn parse_unkillables(arg: &str) -> (r: Result<Vec<String>, String>)
    ensures
        r matches Ok(list) && list@.len() == tilde_separated(arg@).len() && forall|i: int|
            0 <= i < list@.len() ==> (#[trigger] list@[i])@ == tilde_separated(arg@)[i],
{
    let n = arg.unicode_len();
    let mut list: Vec<String> = Vec::new();
    let mut start: usize = 0;
    let mut i: usize = 0;
    while i < n
        invariant
            i <= n == arg@.len(),
            start <= i,
            start == pieces_before(arg@, i as int).1,
            list@.len() == pieces_before(arg@, i as int).0.len(),
            forall|k: int|
                0 <= k < list@.len() ==> (#[trigger] list@[k])@ == pieces_before(
                    arg@,
                    i as int,
                ).0[k],
        decreases n - i,
    {
        if arg.get_char(i) == '~' {
            list.push(arg.substring_char(start, i).to_owned());
            start = i + 1;
        }
        i += 1;
    }
    list.push(arg.substring_char(start, n).to_owned());
    Ok(list)
}

} // verus!
