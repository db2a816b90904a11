//! Text rules shared by the rest of the library: the last segment of a
//! separated string, decimal numerals, and paths with `/` as separator.

use vstd::prelude::*;
use vstd::string::*;

verus! {

/// The index just past the last `sep` in `s`, or 0 where `s` holds none.
pub open spec fn after_last(s: Seq<char>, sep: char) -> int
    decreases s.len(),
{
    if s.len() == 0 {
        0
    } else if s.last() == sep {
        s.len() as int
    } else {
        after_last(s.drop_last(), sep)
    }
}

/// What follows the last `sep` in `s`; all of `s` where it holds none.
pub open spec fn last_segment(s: Seq<char>, sep: char) -> Seq<char> {
    s.subrange(after_last(s, sep), s.len() as int)
}

/// `after_last` cuts `s` behind a separator (or at the start), and no separator follows the cut.
pub proof fn lemma_after_last(s: Seq<char>, sep: char)
    ensures
        0 <= after_last(s, sep) <= s.len(),
        after_last(s, sep) > 0 ==> s[after_last(s, sep) - 1] == sep,
        forall|i: int| after_last(s, sep) <= i < s.len() ==> s[i] != sep,
    decreases s.len(),
{
    if s.len() > 0 && s.last() != sep {
        let head = s.drop_last();
        lemma_after_last(head, sep);
        assert forall|i: int| after_last(s, sep) <= i < s.len() implies s[i] != sep by {
            if i < head.len() {
                assert(s[i] == head[i]);
            }
        }
    }
}

/// The last segment holds no separator, and `s` is what stands before the cut followed by it.
pub proof fn lemma_last_segment(s: Seq<char>, sep: char)
    ensures
        !last_segment(s, sep).contains(sep),
        s == s.subrange(0, after_last(s, sep)) + last_segment(s, sep),
{
    lemma_after_last(s, sep);
    let t = last_segment(s, sep);
    assert forall|i: int| 0 <= i < t.len() implies t[i] != sep by {
        assert(t[i] == s[after_last(s, sep) + i]);
    }
    assert(s =~= s.subrange(0, after_last(s, sep)) + t);
}

/// The part of `s` behind its last `sep`: the longest end of `s` that
/// holds no `sep`.
pub fn last_segment_of(s: &str, sep: char) -> (r: String)
    ensures
        r@ == last_segment(s@, sep),
        !r@.contains(sep),
        s@ == s@.subrange(0, after_last(s@, sep)) + r@,
        after_last(s@, sep) > 0 ==> s@[after_last(s@, sep) - 1] == sep,
{
    broadcast use vstd::string::group_string_axioms;

    let n = s.unicode_len();
    let mut cut: usize = 0;
    let mut i: usize = 0;
    for c in iter: s.chars()
        invariant
            n == s@.len(),
            iter.seq() == s@,
            i == iter.index(),
            cut <= i,
            cut as int == after_last(s@.subrange(0, i as int), sep),
    {
        proof {
            let next = s@.subrange(0, i + 1);
            assert(next.drop_last() =~= s@.subrange(0, i as int));
            assert(next.last() == c);
        }
        i = i + 1;
        if c == sep {
            cut = i;
        }
    }
    proof {
        assert(s@.subrange(0, n as int) =~= s@);
        lemma_after_last(s@, sep);
        lemma_last_segment(s@, sep);
    }
    s.substring_char(cut, n).to_owned()
}

/// Whether `text` starts with `prefix`.
pub open spec fn begins(text: Seq<char>, prefix: Seq<char>) -> bool {
    prefix.len() <= text.len() && text.subrange(0, prefix.len() as int) == prefix
}

/// `label` followed by `detail`.
pub fn labelled(label: &str, detail: &str) -> (r: String)
    ensures
        r@ == label@ + detail@,
        begins(r@, label@),
{
    let mut r = label.to_owned();
    r.append(detail);
    assert(r@.subrange(0, label@.len() as int) =~= label@);
    r
}

/// The character that writes the digit `d`, for `d` below ten.
pub open spec fn digit(d: nat) -> char {
    if d == 0 {
        '0'
    } else if d == 1 {
        '1'
    } else if d == 2 {
        '2'
    } else if d == 3 {
        '3'
    } else if d == 4 {
        '4'
    } else if d == 5 {
        '5'
    } else if d == 6 {
        '6'
    } else if d == 7 {
        '7'
    } else if d == 8 {
        '8'
    } else {
        '9'
    }
}

/// The decimal numeral of `n`, without sign or leading zeros.
pub open spec fn decimal(n: nat) -> Seq<char>
    decreases n,
{
    if n < 10 {
        seq![digit(n)]
    } else {
        decimal(n / 10).push(digit(n % 10))
    }
}

fn digit_text(d: u64) -> (r: &'static str)
    requires
        d < 10,
    ensures
        r@ == seq![digit(d as nat)],
{
    proof {
        reveal_strlit("0");
        reveal_strlit("1");
        reveal_strlit("2");
        reveal_strlit("3");
        reveal_strlit("4");
        reveal_strlit("5");
        reveal_strlit("6");
        reveal_strlit("7");
        reveal_strlit("8");
        reveal_strlit("9");
    }
    let r = if d == 0 {
        "0"
    } else if d == 1 {
        "1"
    } else if d == 2 {
        "2"
    } else if d == 3 {
        "3"
    } else if d == 4 {
        "4"
    } else if d == 5 {
        "5"
    } else if d == 6 {
        "6"
    } else if d == 7 {
        "7"
    } else if d == 8 {
        "8"
    } else {
        "9"
    };
    assert(r@ =~= seq![digit(d as nat)]);
    r
}

/// Writes `n` as a decimal numeral.
pub fn decimal_text(n: u64) -> (r: String)
    ensures
        r@ == decimal(n as nat),
    decreases n,
{
    if n < 10 {
        digit_text(n).to_owned()
    } else {
        let mut r = decimal_text(n / 10);
        r.append(digit_text(n % 10));
        assert(r@ =~= decimal(n as nat));
        r
    }
}

/// The path `name` below the directory `base`, with `/` between the two
/// unless `base` is empty or ends in one. A `name` that starts at the root
/// stands for itself.
pub open spec fn joined(base: Seq<char>, name: Seq<char>) -> Seq<char> {
    if name.len() > 0 && name[0] == '/' {
        name
    } else if base.len() == 0 || base.last() == '/' {
        base + name
    } else {
        base + seq!['/'] + name
    }
}

/// Joins `name` to the directory `base`.
pub fn join_path(base: &str, name: &str) -> (r: String)
    ensures
        r@ == joined(base@, name@),
{
    let name_len = name.unicode_len();
    if name_len > 0 && name.get_char(0) == '/' {
        return name.to_owned();
    }
    let base_len = base.unicode_len();
    let mut r = base.to_owned();
    if base_len > 0 && base.get_char(base_len - 1) != '/' {
        proof {
            reveal_strlit("/");
        }
        r.append("/");
        assert(r@ =~= base@ + seq!['/']);
    }
    r.append(name);
    r
}

} // verus!
