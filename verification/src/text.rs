//! Text building blocks of the statement builder: joining with a separator,
//! decimal numerals, and marker substitution.

use itertools::Itertools;
use vstd::prelude::*;

verus! {

/// The items of `items`, with `sep` between each two neighbours.
pub open spec fn joined(items: Seq<Seq<char>>, sep: Seq<char>) -> Seq<char>
    decreases items.len(),
{
    if items.len() == 0 {
        Seq::empty()
    } else if items.len() == 1 {
        items[0]
    } else {
        joined(items.drop_last(), sep) + sep + items.last()
    }
}

/// The decimal digit that stands for `d`, for `d` below ten.
pub open spec fn digit(d: nat) -> char {
    if d == 0 {
        '0'
    } else if d == 1 {
        '1'
    } else if d == 2 {
        '2'
    } else if d == 3 {
        '3'
    } else if d == 4 {
        '4'
    } else if d == 5 {
        '5'
    } else if d == 6 {
        '6'
    } else if d == 7 {
        '7'
    } else if d == 8 {
        '8'
    } else {
        '9'
    }
}

/// The decimal numeral of `n`, without leading zeros.
pub open spec fn decimal(n: nat) -> Seq<char>
    decreases n,
{
    if n < 10 {
        seq![digit(n)]
    } else {
        decimal(n / 10).push(digit(n % 10))
    }
}

/// `text` with every occurrence of `marker` replaced by `with`, reading from
/// the left; an occurrence starts where the previous one ended at the
/// earliest. An empty marker occurs nowhere.
pub open spec fn substituted(text: Seq<char>, marker: Seq<char>, with: Seq<char>) -> Seq<char>
    decreases text.len(),
{
    if marker.len() == 0 || text.len() < marker.len() {
        text
    } else if text.subrange(0, marker.len() as int) == marker {
        with + substituted(text.subrange(marker.len() as int, text.len() as int), marker, with)
    } else {
        seq![text[0]] + substituted(text.subrange(1, text.len() as int), marker, with)
    }
}

/// Joins `items` with `sep` by `Itertools::join` on the iterator over the
/// vector. Each item is written through its `Display`, which for a `String`
/// is the string itself, and `sep` is written between neighbours; the result
/// of an empty vector is the empty string. `join` reserves `sep.len()` bytes
/// for each item after the first: with a separator no longer than eight bytes
/// that is less than the vector itself occupies, so the reservation cannot
/// exceed the allocation limit.
#[verifier::external_body]
pub(crate) fn join(items: &Vec<String>, sep: &str) -> (text: String)
    requires
        sep.is_ascii(),
        sep@.len() <= 8,
    ensures
        text@ == joined(items.deep_view(), sep@),
{
    items.iter().join(sep)
}

/// The one-character text of a decimal digit.
fn digit_text(d: usize) -> (text: &'static str)
    requires
        d < 10,
    ensures
        text@ == seq![digit(d as nat)],
{
    let text = if d == 0 {
        "0"
    } else if d == 1 {
        "1"
    } else if d == 2 {
        "2"
    } else if d == 3 {
        "3"
    } else if d == 4 {
        "4"
    } else if d == 5 {
        "5"
    } else if d == 6 {
        "6"
    } else if d == 7 {
        "7"
    } else if d == 8 {
        "8"
    } else {
        "9"
    };
    proof {
        reveal_strlit("0");
        reveal_strlit("1");
        reveal_strlit("2");
        reveal_strlit("3");
        reveal_strlit("4");
        reveal_strlit("5");
        reveal_strlit("6");
        reveal_strlit("7");
        reveal_strlit("8");
        reveal_strlit("9");
        assert(text@ =~= seq![digit(d as nat)]);
    }
    text
}

/// Writes `n` as a decimal numeral.
pub fn decimal_text(n: usize) -> (text: String)
    ensures
        text@ == decimal(n as nat),
    decreases n,
{
    if n < 10 {
        String::from_str(digit_text(n))
    } else {
        let mut text = decimal_text(n / 10);
        text.append(digit_text(n % 10));
        proof {
            assert(text@ =~= decimal((n / 10) as nat).push(digit((n % 10) as nat)));
        }
        text
    }
}

/// The characters of `s`, in order.
pub fn chars_of(s: &str) -> (out: Vec<char>)
    ensures
        out@ == s@,
{
    let mut out: Vec<char> = Vec::new();
    for c in it: s.chars()
        invariant
            out@ == s@.take(it.index() as int),
            it.seq() == s@,
    {
        out.push(c);
    }
    out
}

/// Whether `marker` stands in `text` at position `at`.
fn occurs_at(text: &Vec<char>, marker: &Vec<char>, at: usize) -> (found: bool)
    requires
        at <= text.len(),
    ensures
        found == (at + marker.len() <= text.len() && text@.subrange(
            at as int,
            at + marker.len(),
        ) == marker@),
{
    if marker.len() > text.len() - at {
        return false;
    }
    let mut k: usize = 0;
    while k < marker.len()
        invariant
            at + marker.len() <= text.len(),
            k <= marker.len(),
            forall|j: int| 0 <= j < k ==> text@[at + j] == marker@[j],
        decreases marker.len() - k,
    {
        if text[at + k] != marker[k] {
            proof {
                let window = text@.subrange(at as int, at + marker.len());
                assert(window[k as int] != marker@[k as int]);
            }
            return false;
        }
        k += 1;
    }
    proof {
        assert(text@.subrange(at as int, at + marker.len()) =~= marker@);
    }
    true
}

/// What `substituted` yields for a suffix that begins with the marker.
proof fn lemma_substituted_hit(text: Seq<char>, marker: Seq<char>, with: Seq<char>, at: int)
    requires
        marker.len() > 0,
        0 <= at,
        at + marker.len() <= text.len(),
        text.subrange(at, at + marker.len()) == marker,
    ensures
        substituted(text.subrange(at, text.len() as int), marker, with) == with + substituted(
            text.subrange(at + marker.len(), text.len() as int),
            marker,
            with,
        ),
{
    let suffix = text.subrange(at, text.len() as int);
    assert(suffix.subrange(0, marker.len() as int) =~= text.subrange(at, at + marker.len()));
    assert(suffix.subrange(marker.len() as int, suffix.len() as int) =~= text.subrange(
        at + marker.len(),
        text.len() as int,
    ));
}

/// What `substituted` yields for a suffix that does not begin with the marker.
proof fn lemma_substituted_miss(text: Seq<char>, marker: Seq<char>, with: Seq<char>, at: int)
    requires
        marker.len() > 0,
        0 <= at < text.len(),
        !(at + marker.len() <= text.len() && text.subrange(at, at + marker.len()) == marker),
    ensures
        substituted(text.subrange(at, text.len() as int), marker, with) == seq![text[at]]
            + substituted(text.subrange(at + 1, text.len() as int), marker, with),
{
    let suffix = text.subrange(at, text.len() as int);
    if at + marker.len() <= text.len() {
        assert(suffix.subrange(0, marker.len() as int) =~= text.subrange(at, at + marker.len()));
        assert(suffix.subrange(1, suffix.len() as int) =~= text.subrange(
            at + 1,
            text.len() as int,
        ));
    } else {
        // Too short to hold the marker: nothing in the suffix is replaced.
        lemma_substituted_short(text.subrange(at + 1, text.len() as int), marker, with);
        assert(suffix =~= seq![text[at]] + text.subrange(at + 1, text.len() as int));
    }
}

/// A text shorter than the marker is left as it is.
proof fn lemma_substituted_short(text: Seq<char>, marker: Seq<char>, with: Seq<char>)
    requires
        text.len() < marker.len(),
    ensures
        substituted(text, marker, with) == text,
{
}

/// Replaces every occurrence of `marker` in `text` by `with`.
pub fn substitute(text: &str, marker: &str, with: &str) -> (out: String)
    ensures
        out@ == substituted(text@, marker@, with@),
{
    let chars = chars_of(text);
    let pattern = chars_of(marker);
    if pattern.len() == 0 {
        return String::from_str(text);
    }
    let mut out = String::new();
    let mut copied: usize = 0;
    let mut at: usize = 0;
    proof {
        assert(text@.subrange(0, text@.len() as int) =~= text@);
    }
    while at < chars.len()
        invariant
            chars@ == text@,
            pattern@ == marker@,
            pattern.len() > 0,
            copied <= at <= chars.len(),
            out@ + text@.subrange(copied as int, at as int) + substituted(
                text@.subrange(at as int, text@.len() as int),
                marker@,
                with@,
            ) == substituted(text@, marker@, with@),
        decreases chars.len() - at,
    {
        if occurs_at(&chars, &pattern, at) {
            let ghost before = out@;
            let ghost pending = text@.subrange(copied as int, at as int);
            proof {
                lemma_substituted_hit(text@, marker@, with@, at as int);
            }
            out.append(text.substring_char(copied, at));
            out.append(with);
            at = at + pattern.len();
            copied = at;
            proof {
                let rest = substituted(
                    text@.subrange(at as int, text@.len() as int),
                    marker@,
                    with@,
                );
                assert(text@.subrange(copied as int, at as int) =~= Seq::<char>::empty());
                assert(out@ + Seq::<char>::empty() + rest =~= before + pending + (with@ + rest));
            }
        } else {
            proof {
                lemma_substituted_miss(text@, marker@, with@, at as int);
                let pending = text@.subrange(copied as int, at as int);
                let rest = substituted(
                    text@.subrange(at + 1, text@.len() as int),
                    marker@,
                    with@,
                );
                assert(text@.subrange(copied as int, at + 1) =~= pending + seq![text@[at as int]]);
                assert(out@ + (pending + seq![text@[at as int]]) + rest =~= out@ + pending + (
                seq![text@[at as int]] + rest));
            }
            at = at + 1;
        }
    }
    proof {
        assert(text@.subrange(at as int, text@.len() as int) =~= Seq::<char>::empty());
        assert(out@ + text@.subrange(copied as int, at as int) + Seq::<char>::empty() =~= out@
            + text@.subrange(copied as int, at as int));
    }
    out.append(text.substring_char(copied, at));
    out
}

} // verus!
