//! Naming rules: decimal screen names for captured displays and extension
//! rewriting for re-encoded images.

use vstd::prelude::*;
use vstd::string::*;

verus! {

/// The canonical file extension of the codec, without the dot.
pub open spec fn canonical_ext() -> Seq<char> {
    "webp"@
}

/// The decimal digit character for `d` (meaningful for `0 <= d <= 9`).
pub open spec fn digit_char(d: int) -> char {
    if d == 0 {
        '0'
    } else if d == 1 {
        '1'
    } else if d == 2 {
        '2'
    } else if d == 3 {
        '3'
    } else if d == 4 {
        '4'
    } else if d == 5 {
        '5'
    } else if d == 6 {
        '6'
    } else if d == 7 {
        '7'
    } else if d == 8 {
        '8'
    } else {
        '9'
    }
}

/// The decimal rendering of a non-negative integer, most significant digit
/// first, with no leading zeros (a single `'0'` for zero).
pub open spec fn dec_chars(n: int) -> Seq<char>
    decreases n,
{
    if n < 10 {
        seq![digit_char(n)]
    } else {
        dec_chars(n / 10).push(digit_char(n % 10))
    }
}

/// Appends the decimal rendering of `n` to `s`.
pub fn push_decimal(s: &mut String, n: usize)
    ensures
        final(s)@ == old(s)@ + dec_chars(n as int),
    decreases n,
{
    if n >= 10 {
        push_decimal(s, n / 10);
    }
    let d: usize = n % 10;
    let digit: &str = if d == 0 {
        "0"
    } else if d == 1 {
        "1"
    } else if d == 2 {
        "2"
    } else if d == 3 {
        "3"
    } else if d == 4 {
        "4"
    } else if d == 5 {
        "5"
    } else if d == 6 {
        "6"
    } else if d == 7 {
        "7"
    } else if d == 8 {
        "8"
    } else {
        "9"
    };
    proof {
        reveal_strlit("0");
        reveal_strlit("1");
        reveal_strlit("2");
        reveal_strlit("3");
        reveal_strlit("4");
        reveal_strlit("5");
        reveal_strlit("6");
        reveal_strlit("7");
        reveal_strlit("8");
        reveal_strlit("9");
        assert(digit@ =~= seq![digit_char(d as int)]);
        if n >= 10 {
            assert(dec_chars(n as int) =~= dec_chars(n as int / 10) + seq![
                digit_char(n as int % 10),
            ]);
        }
    }
    s.append(digit);
    proof {
        assert(s@ =~= old(s)@ + dec_chars(n as int));
    }
}

/// The name that the capture operation assigns to the display at 1-based
/// position `k`.
pub open spec fn screen_name_spec(k: int) -> Seq<char> {
    "screen-"@ + dec_chars(k) + ".webp"@
}

/// Builds `screen-{k}.webp` for the display at 1-based position `k`.
pub fn screen_name(k: usize) -> (s: String)
    ensures
        s@ == screen_name_spec(k as int),
{
    let mut s = String::from_str("screen-");
    push_decimal(&mut s, k);
    s.append(".webp");
    proof {
        assert(s@ =~= screen_name_spec(k as int));
    }
    s
}

/// Capture naming law: every assigned name is `screen-`, then the 1-based
/// position in decimal, then a dot and the canonical extension.
pub proof fn lemma_screen_name_shape(k: int)
    ensures
        screen_name_spec(k) == "screen-"@ + dec_chars(k) + "."@ + canonical_ext(),
{
    reveal_strlit(".webp");
    reveal_strlit(".");
    reveal_strlit("webp");
    assert(".webp"@ =~= "."@ + "webp"@);
    assert(screen_name_spec(k) =~= "screen-"@ + dec_chars(k) + "."@ + canonical_ext());
}

/// Whether the name contains a dot anywhere.
pub open spec fn has_dot(name: Seq<char>) -> bool {
    exists|i: int| 0 <= i < name.len() && name[i] == '.'
}

/// `i` is the position of the last dot of `name`.
pub open spec fn is_last_dot(name: Seq<char>, i: int) -> bool {
    &&& 0 <= i < name.len()
    &&& name[i] == '.'
    &&& forall|j: int| i < j < name.len() ==> name[j] != '.'
}

/// The position of the last dot of `name` (meaningful when `has_dot(name)`).
pub open spec fn last_dot(name: Seq<char>) -> int {
    choose|i: int| is_last_dot(name, i)
}

/// At most one position can be the last dot.
pub proof fn lemma_last_dot_unique(name: Seq<char>, i: int)
    requires
        is_last_dot(name, i),
    ensures
        has_dot(name),
        last_dot(name) == i,
{
    assert(has_dot(name));
    let c = last_dot(name);
    assert(is_last_dot(name, c));
    if c < i {
        assert(name[i] != '.');
    } else if i < c {
        assert(name[c] != '.');
    }
}

/// The name of a re-encoded image: everything up to and including the last
/// dot of the source name, then the canonical extension; a dotless name keeps
/// all its characters and gains a dot and the extension; an empty name
/// becomes the extension alone.
pub open spec fn rewritten_name(name: Seq<char>) -> Seq<char> {
    if name.len() == 0 {
        canonical_ext()
    } else if has_dot(name) {
        name.subrange(0, last_dot(name) + 1) + canonical_ext()
    } else {
        name + "."@ + canonical_ext()
    }
}

/// Naming law for re-encoding, dotted case: if the last dot of the source
/// name stands at `i`, the result name is the prefix through `i` plus the
/// canonical extension.
pub proof fn lemma_rewritten_name_with_dot(name: Seq<char>, i: int)
    requires
        is_last_dot(name, i),
    ensures
        rewritten_name(name) == name.subrange(0, i + 1) + canonical_ext(),
{
    lemma_last_dot_unique(name, i);
}

/// Naming law for re-encoding, dotless case: a non-empty name without a dot
/// keeps every character and gains a dot and the canonical extension.
pub proof fn lemma_rewritten_name_no_dot(name: Seq<char>)
    requires
        name.len() > 0,
        forall|i: int| 0 <= i < name.len() ==> name[i] != '.',
    ensures
        rewritten_name(name) == name + "."@ + canonical_ext(),
{
}

/// Rewrites a source name for its re-encoded image: the final extension
/// segment is replaced by the canonical extension, or the extension is
/// appended if the name has none.
pub fn rewrite_name(name: &str) -> (r: String)
    ensures
        r@ == rewritten_name(name@),
{
    let n = name.unicode_len();
    if n == 0 {
        let r = String::from_str("webp");
        proof {
            assert(r@ =~= rewritten_name(name@));
        }
        return r;
    }
    let mut i: usize = 0;
    let mut dot: Option<usize> = None;
    while i < n
        invariant
            n == name@.len(),
            i <= n,
            dot matches Some(d) ==> d < i && name@[d as int] == '.' && (forall|j: int|
                d < j < i ==> name@[j] != '.'),
            dot is None ==> forall|j: int| 0 <= j < i ==> name@[j] != '.',
        decreases n - i,
    {
        let c = name.get_char(i);
        if c == '.' {
            dot = Some(i);
        }
        i += 1;
    }
    match dot {
        Some(d) => {
            proof {
                assert(is_last_dot(name@, d as int));
                lemma_last_dot_unique(name@, d as int);
            }
            let stem = name.substring_char(0, d + 1);
            let mut r = String::from_str(stem);
            r.append("webp");
            proof {
                assert(r@ =~= rewritten_name(name@));
            }
            r
        },
        None => {
            let mut r = String::from_str(name);
            r.append(".webp");
            proof {
                reveal_strlit(".webp");
                reveal_strlit(".");
                reveal_strlit("webp");
                assert(".webp"@ =~= "."@ + "webp"@);
                assert(r@ =~= rewritten_name(name@));
            }
            r
        },
    }
}

} // verus!
