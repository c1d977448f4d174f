//! Human-readable names of phase and feature directories.
use vstd::prelude::*;
use crate::text::{
    chars_of, lemma_split_on_nonempty, lower_of, lowercase, split_at_char, split_on, string_of,
    views,
};

verus! {

/// An ASCII decimal digit.
pub open spec fn is_digit(c: char) -> bool {
    '0' <= c && c <= '9'
}

/// The number of leading digits of `s`.
pub open spec fn ordinal_len(s: Seq<char>) -> nat
    decreases s.len(),
{
    if s.len() > 0 && is_digit(s[0]) {
        1 + ordinal_len(s.drop_first())
    } else {
        0
    }
}

/// `s` begins with an ordinal token: one or more digits and a `-`.
pub open spec fn has_ordinal(s: Seq<char>) -> bool {
    0 < ordinal_len(s) < s.len() && s[ordinal_len(s) as int] == '-'
}

/// `s` with each `-` replaced by a space.
pub open spec fn spaced(s: Seq<char>) -> Seq<char> {
    s.map_values(|c: char| if c == '-' { ' ' } else { c })
}

/// `s` without its leading `-` characters.
pub open spec fn strip_dashes(s: Seq<char>) -> Seq<char>
    decreases s.len(),
{
    if s.len() > 0 && s[0] == '-' {
        strip_dashes(s.drop_first())
    } else {
        s
    }
}

/// The display name of a directory named `s`: for a name of the form
/// `NN-rest`, `rest` with each `-` turned into a space; any other name as it
/// stands, less its leading `-` characters.
pub open spec fn display_name(s: Seq<char>) -> Seq<char> {
    if has_ordinal(s) {
        spaced(s.subrange(ordinal_len(s) as int + 1, s.len() as int))
    } else {
        strip_dashes(s)
    }
}

proof fn lemma_ordinal_len(s: Seq<char>, i: int)
    requires
        0 <= i <= s.len(),
        forall|k: int| 0 <= k < i ==> is_digit(s[k]),
    ensures
        ordinal_len(s) == i + ordinal_len(s.subrange(i, s.len() as int)),
    decreases i,
{
    if i > 0 {
        assert(is_digit(s[0]));
        assert forall|k: int| 0 <= k < i - 1 implies is_digit(s.drop_first()[k]) by {
            assert(s.drop_first()[k] == s[k + 1]);
        }
        lemma_ordinal_len(s.drop_first(), i - 1);
        assert(s.drop_first().subrange(i - 1, s.drop_first().len() as int) =~= s.subrange(
            i,
            s.len() as int,
        ));
    } else {
        assert(s.subrange(0, s.len() as int) =~= s);
    }
}

/// The display name of a phase or feature directory.
pub fn extract_name_from_path(path: &str) -> (r: String)
    ensures
        r@ == display_name(path@),
{
    let s = chars_of(path);
    let n = s.len();
    let mut i: usize = 0;
    while i < n && '0' <= s[i] && s[i] <= '9'
        invariant
            i <= n == s@.len(),
            forall|k: int| 0 <= k < i ==> is_digit(s@[k]),
        decreases n - i,
    {
        i = i + 1;
    }
    proof {
        lemma_ordinal_len(s@, i as int);
        assert(s@.subrange(i as int, n as int).len() == 0 || !is_digit(s@[i as int]));
        if (i as int) < n {
            assert(s@.subrange(i as int, n as int)[0] == s@[i as int]);
        }
        assert(ordinal_len(s@) == i);
    }
    let mut out: Vec<char> = Vec::new();
    if i > 0 && i < n && s[i] == '-' {
        let mut k: usize = i + 1;
        while k < n
            invariant
                i + 1 <= k <= n == s@.len(),
                out@ == spaced(s@.subrange(i + 1, k as int)),
            decreases n - k,
        {
            let c = s[k];
            out.push(if c == '-' { ' ' } else { c });
            k = k + 1;
            assert(out@ =~= spaced(s@.subrange(i + 1, k as int)));
        }
    } else {
        let mut k: usize = 0;
        assert(s@.subrange(0, n as int) =~= s@);
        while k < n && s[k] == '-'
            invariant
                k <= n == s@.len(),
                strip_dashes(s@) == strip_dashes(s@.subrange(k as int, n as int)),
            decreases n - k,
        {
            assert(s@.subrange(k as int, n as int).drop_first() =~= s@.subrange(k + 1, n as int));
            k = k + 1;
        }
        if k < n {
            assert(s@.subrange(k as int, n as int)[0] == s@[k as int]);
        }
        assert(strip_dashes(s@.subrange(k as int, n as int)) == s@.subrange(k as int, n as int));
        assert(out@ + s@.subrange(k as int, n as int) =~= s@.subrange(k as int, n as int));
        while k < n
            invariant
                k <= n == s@.len(),
                strip_dashes(s@) == out@ + s@.subrange(k as int, n as int),
            decreases n - k,
        {
            let ghost before = out@;
            out.push(s[k]);
            assert(out@ + s@.subrange(k + 1, n as int) =~= before + s@.subrange(k as int, n as int));
            k = k + 1;
        }
        assert(s@.subrange(n as int, n as int) =~= Seq::<char>::empty());
        assert(out@ + Seq::<char>::empty() =~= out@);
    }
    string_of(out.as_slice())
}

/// What `char::is_alphanumeric` says of `c`.
pub uninterp spec fn alphanumeric(c: char) -> bool;

/// Relies on `char::is_alphanumeric`: whether `c` is alphabetic or numeric by
/// Unicode's tables.
#[verifier::external_body]
fn is_alphanumeric(c: char) -> (r: bool)
    ensures
        r == alphanumeric(c),
{
    c.is_alphanumeric()
}

/// `s` with spaces and underscores (and dots, if `dots`) turned into `-`.
pub open spec fn dashed(s: Seq<char>, dots: bool) -> Seq<char> {
    s.map_values(|c: char| if c == ' ' || c == '_' || (dots && c == '.') { '-' } else { c })
}

/// The characters of `s` that are alphanumeric or `-`, in order.
pub open spec fn slug_chars(s: Seq<char>) -> Seq<char>
    decreases s.len(),
{
    if s.len() == 0 {
        Seq::empty()
    } else if alphanumeric(s.last()) || s.last() == '-' {
        slug_chars(s.drop_last()).push(s.last())
    } else {
        slug_chars(s.drop_last())
    }
}

/// `s` without its trailing `-` characters.
pub open spec fn strip_dashes_end(s: Seq<char>) -> Seq<char>
    decreases s.len(),
{
    if s.len() > 0 && s.last() == '-' {
        strip_dashes_end(s.drop_last())
    } else {
        s
    }
}

/// The slug of a lower-cased name: separators turned into `-`, only
/// alphanumeric characters and `-` kept, no `-` at either end.
pub open spec fn slug(lowered: Seq<char>, dots: bool) -> Seq<char> {
    strip_dashes_end(strip_dashes(slug_chars(dashed(lowered, dots))))
}

/// The slug of a lower-cased name; with `dots`, a `.` is a separator too.
pub fn slug_from(lowered: &str, dots: bool) -> (r: String)
    ensures
        r@ == slug(lowered@, dots),
{
    let s = chars_of(lowered);
    let ghost d = dashed(s@, dots);
    let mut kept: Vec<char> = Vec::new();
    assert(d.take(0) =~= Seq::<char>::empty());
    for i in 0..s.len()
        invariant
            d == dashed(s@, dots),
            kept@ == slug_chars(d.take(i as int)),
    {
        let c0 = s[i];
        let c = if c0 == ' ' || c0 == '_' || (dots && c0 == '.') {
            '-'
        } else {
            c0
        };
        assert(d.take(i + 1).drop_last() =~= d.take(i as int));
        assert(d.take(i + 1).last() == c);
        if c == '-' || is_alphanumeric(c) {
            kept.push(c);
        }
    }
    assert(d.take(s@.len() as int) =~= d);
    let n = kept.len();
    let mut a: usize = 0;
    assert(kept@.subrange(0, n as int) =~= kept@);
    while a < n && kept[a] == '-'
        invariant
            a <= n == kept@.len(),
            strip_dashes(kept@) == strip_dashes(kept@.subrange(a as int, n as int)),
        decreases n - a,
    {
        assert(kept@.subrange(a as int, n as int).drop_first() =~= kept@.subrange(a + 1, n as int));
        a = a + 1;
    }
    if a < n {
        assert(kept@.subrange(a as int, n as int)[0] == kept@[a as int]);
    }
    let ghost mid = kept@.subrange(a as int, n as int);
    assert(strip_dashes(kept@) == mid);
    let mut b: usize = n;
    assert(mid.subrange(0, (n - a) as int) =~= mid);
    while b > a && kept[b - 1] == '-'
        invariant
            a <= b <= n == kept@.len(),
            mid == kept@.subrange(a as int, n as int),
            strip_dashes_end(mid) == strip_dashes_end(mid.subrange(0, b - a)),
        decreases b,
    {
        assert(mid.subrange(0, b - a).drop_last() =~= mid.subrange(0, b - a - 1));
        b = b - 1;
    }
    let out = crate::text::slice_of(kept.as_slice(), a, b);
    assert(mid.subrange(0, b - a) =~= out@);
    string_of(out.as_slice())
}

/// The directory-name slug of a phase or feature name: lower-cased, with
/// spaces, underscores and dots as `-`.
pub fn sanitize_name(name: &str) -> (r: String)
    ensures
        r@ == slug(lower_of(name@), true),
{
    let l = lowercase(name);
    slug_from(l.as_str(), true)
}

/// The branch-name slug of a feature name: lower-cased, with spaces and
/// underscores as `-`.
pub fn sanitize_for_branch(name: &str) -> (r: String)
    ensures
        r@ == slug(lower_of(name@), false),
{
    let l = lowercase(name);
    slug_from(l.as_str(), false)
}

/// The ordinal of a directory named `NN-rest`: what comes before the first
/// `-` (the whole name if there is none).
pub open spec fn id_of(s: Seq<char>) -> Seq<char> {
    split_on(s, '-')[0]
}

/// The ordinal of a phase or feature directory.
pub fn extract_id_from_path(path: &str) -> (r: String)
    ensures
        r@ == id_of(path@),
{
    let s = chars_of(path);
    let parts = split_at_char(s.as_slice(), '-');
    proof {
        lemma_split_on_nonempty(s@, '-');
    }
    assert(views(parts@)[0] == parts@[0]@);
    string_of(parts[0].as_slice())
}

} // verus!
