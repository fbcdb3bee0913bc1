use vstd::prelude::*;

verus! {

/// The decimal digit character for `d < 10`.
pub open spec fn digit_char(d: nat) -> char {
    if d == 0 {
        '0'
    } else if d == 1 {
        '1'
    } else if d == 2 {
        '2'
    } else if d == 3 {
        '3'
    } else if d == 4 {
        '4'
    } else if d == 5 {
        '5'
    } else if d == 6 {
        '6'
    } else if d == 7 {
        '7'
    } else if d == 8 {
        '8'
    } else {
        '9'
    }
}

/// The decimal text of `n`, without leading zeros.
pub open spec fn decimal_text(n: nat) -> Seq<char>
    decreases n,
{
    if n < 10 {
        seq![digit_char(n)]
    } else {
        decimal_text(n / 10).push(digit_char(n % 10))
    }
}

fn digit_str(d: u64) -> (r: &'static str)
    requires
        d < 10,
    ensures
        r@ == seq![digit_char(d as nat)],
{
    if d == 0 {
        proof { reveal_strlit("0"); }
        "0"
    } else if d == 1 {
        proof { reveal_strlit("1"); }
        "1"
    } else if d == 2 {
        proof { reveal_strlit("2"); }
        "2"
    } else if d == 3 {
        proof { reveal_strlit("3"); }
        "3"
    } else if d == 4 {
        proof { reveal_strlit("4"); }
        "4"
    } else if d == 5 {
        proof { reveal_strlit("5"); }
        "5"
    } else if d == 6 {
        proof { reveal_strlit("6"); }
        "6"
    } else if d == 7 {
        proof { reveal_strlit("7"); }
        "7"
    } else if d == 8 {
        proof { reveal_strlit("8"); }
        "8"
    } else {
        proof { reveal_strlit("9"); }
        "9"
    }
}

/// The decimal text of `n`.
pub fn decimal(n: u64) -> (r: String)
    ensures
        r@ == decimal_text(n as nat),
    decreases n,
{
    if n < 10 {
        String::from_str(digit_str(n))
    } else {
        let mut s = decimal(n / 10);
        s.append(digit_str(n % 10));
        s
    }
}

/// The pieces of `s` between occurrences of `sep`; `s` without `sep` is one
/// piece.
pub open spec fn split_at_char(s: Seq<char>, sep: char) -> Seq<Seq<char>>
    decreases s.len(),
{
    if s.len() == 0 {
        seq![Seq::<char>::empty()]
    } else {
        let rest = split_at_char(s.drop_last(), sep);
        if s.last() == sep {
            rest.push(Seq::<char>::empty())
        } else {
            rest.update(rest.len() - 1, rest.last().push(s.last()))
        }
    }
}

pub proof fn lemma_split_nonempty(s: Seq<char>, sep: char)
    ensures
        split_at_char(s, sep).len() >= 1,
    decreases s.len(),
{
    if s.len() > 0 {
        lemma_split_nonempty(s.drop_last(), sep);
    }
}

/// Splits `path` at every occurrence of `sep`.
pub fn split_text(path: &str, sep: char) -> (r: Vec<String>)
    ensures
        r@.map_values(|x: String| x@) == split_at_char(path@, sep),
{
    let n = path.unicode_len();
    let mut parts: Vec<String> = Vec::new();
    let mut start: usize = 0;
    let mut i: usize = 0;
    proof {
        assert(path@.subrange(0, 0) =~= Seq::<char>::empty());
        assert(parts@.map_values(|x: String| x@).push(path@.subrange(0, 0)) =~= split_at_char(
            path@.subrange(0, 0),
            sep,
        ));
    }
    while i < n
        invariant
            n == path@.len(),
            start <= i <= n,
            parts@.map_values(|x: String| x@).push(path@.subrange(start as int, i as int))
                == split_at_char(path@.subrange(0, i as int), sep),
        decreases n - i,
    {
        let c = path.get_char(i);
        let ghost prefix = path@.subrange(0, i + 1);
        proof {
            assert(prefix.drop_last() =~= path@.subrange(0, i as int));
            assert(prefix.last() == c);
            lemma_split_nonempty(path@.subrange(0, i as int), sep);
        }
        let ghost old_view = parts@.map_values(|x: String| x@);
        let ghost seg = path@.subrange(start as int, i as int);
        if c == sep {
            let part = String::from_str(path.substring_char(start, i));
            parts.push(part);
            start = i + 1;
            proof {
                assert(parts@.map_values(|x: String| x@) =~= old_view.push(seg));
                assert(path@.subrange(start as int, i + 1) =~= Seq::<char>::empty());
                assert(split_at_char(prefix, sep) == split_at_char(path@.subrange(0, i as int), sep).push(
                    Seq::<char>::empty(),
                ));
            }
        } else {
            proof {
                assert(path@.subrange(start as int, i + 1) =~= seg.push(c));
                assert(split_at_char(prefix, sep) == old_view.push(seg).update(
                    old_view.len() as int,
                    seg.push(c),
                ));
                assert(old_view.push(seg).update(old_view.len() as int, seg.push(c)) =~= old_view.push(
                    seg.push(c),
                ));
            }
        }
        i = i + 1;
    }
    let ghost before = parts@.map_values(|x: String| x@);
    let last = String::from_str(path.substring_char(start, n));
    parts.push(last);
    proof {
        assert(parts@.map_values(|x: String| x@) =~= before.push(path@.subrange(start as int, n as int)));
        assert(path@.subrange(0, n as int) =~= path@);
        assert(parts@.map_values(|x: String| x@) =~= split_at_char(path@, sep));
    }
    parts
}

/// Relies on chrono's `DateTime<Utc>: From<SystemTime>` and
/// `DateTime::to_rfc3339`: the current time as RFC 3339 text.
#[verifier::external_body]
pub(crate) fn current_timestamp() -> (r: String) {
    chrono::DateTime::<chrono::Utc>::from(std::time::SystemTime::now()).to_rfc3339()
}

} // verus!
