//! Identifier, path and color checks, and other small string forms.
use vstd::prelude::*;
use crate::text;
use vstd::string::StringSliceAdditionalSpecFns;

verus! {

/// The views of a sequence of strings.
pub open spec fn views(v: Seq<String>) -> Seq<Seq<char>> {
    v.map_values(|s: String| s@)
}

/// A byte that `u8::is_ascii_control` accepts.
pub open spec fn is_control_byte(b: u8) -> bool {
    b <= 31 || b == 127
}

/// A character whose UTF-8 encoding is an ASCII control byte.
pub open spec fn is_control_char(c: char) -> bool {
    (c as u32) <= 31 || (c as u32) == 127
}

/// A path-safe identifier: one non-empty segment of at most 255 bytes that is
/// neither `.` nor `..` and holds no control byte, `/` or `\`.
pub open spec fn safe_id_bytes(b: Seq<u8>) -> bool {
    &&& 0 < b.len() <= 255
    &&& b != seq![46u8]
    &&& b != seq![46u8, 46u8]
    &&& forall|i: int|
        0 <= i < b.len() ==> !is_control_byte(#[trigger] b[i]) && b[i] != 47 && b[i] != 92
}

/// Whether `value` is a path-safe identifier.
pub fn is_safe_id(value: &str) -> (r: bool)
    ensures
        r == safe_id_bytes(value.spec_bytes()),
{
    let b = value.as_bytes();
    let n = b.len();
    if n == 0 || n > 255 {
        return false;
    }
    if n == 1 && b[0] == 46 {
        assert(b@ =~= seq![46u8]);
        return false;
    }
    if n == 2 && b[0] == 46 && b[1] == 46 {
        assert(b@ =~= seq![46u8, 46u8]);
        return false;
    }
    let mut i: usize = 0;
    while i < n
        invariant
            n == b@.len(),
            b@ == value.spec_bytes(),
            i <= n,
            forall|j: int| 0 <= j < i ==> !is_control_byte(#[trigger] b@[j]) && b@[j] != 47 && b@[j] != 92,
        decreases n - i,
    {
        let x = b[i];
        if x <= 31 || x == 127 || x == 47 || x == 92 {
            assert(is_control_byte(b@[i as int]) || b@[i as int] == 47 || b@[i as int] == 92);
            return false;
        }
        i += 1;
    }
    true
}

/// An ASCII hexadecimal digit byte.
pub open spec fn is_hex_byte(x: u8) -> bool {
    (48 <= x <= 57) || (65 <= x <= 70) || (97 <= x <= 102)
}

/// A `#RRGGBB` color: `#` followed by six hexadecimal digits.
pub open spec fn hex_color_bytes(b: Seq<u8>) -> bool {
    &&& b.len() == 7
    &&& b[0] == 35
    &&& forall|i: int| 1 <= i < 7 ==> is_hex_byte(#[trigger] b[i])
}

/// Whether `value` is a `#RRGGBB` color.
pub fn is_hex_color(value: &str) -> (r: bool)
    ensures
        r == hex_color_bytes(value.spec_bytes()),
{
    let b = value.as_bytes();
    if b.len() != 7 || b[0] != 35 {
        return false;
    }
    let mut i: usize = 1;
    while i < 7
        invariant
            b@.len() == 7,
            b@ == value.spec_bytes(),
            1 <= i <= 7,
            forall|j: int| 1 <= j < i ==> is_hex_byte(#[trigger] b@[j]),
        decreases 7 - i,
    {
        let x = b[i];
        if !((48 <= x && x <= 57) || (65 <= x && x <= 70) || (97 <= x && x <= 102)) {
            assert(!is_hex_byte(b@[i as int]));
            return false;
        }
        i += 1;
    }
    true
}

/// Whether an import class color is a `#RRGGBB` color.
pub fn valid_color(value: &str) -> (r: bool)
    ensures
        r == hex_color_bytes(value.spec_bytes()),
{
    is_hex_color(value)
}

/// `s` split at every `sep`, as `str::split` yields the pieces.
pub open spec fn split(s: Seq<char>, sep: char) -> Seq<Seq<char>>
    decreases s.len(),
{
    if s.len() == 0 {
        seq![Seq::empty()]
    } else {
        let p = split(s.drop_last(), sep);
        if s.last() == sep {
            p.push(Seq::empty())
        } else {
            p.update(p.len() - 1, p.last().push(s.last()))
        }
    }
}

/// Splitting always yields at least one piece.
pub proof fn lemma_split_nonempty(s: Seq<char>, sep: char)
    ensures
        split(s, sep).len() >= 1,
    decreases s.len(),
{
    if s.len() > 0 {
        lemma_split_nonempty(s.drop_last(), sep);
    }
}

/// The two-character segment `..`.
pub open spec fn dot_dot() -> Seq<char> {
    seq!['.', '.']
}

/// A path segment that is empty or `..`.
pub open spec fn bad_segment(p: Seq<char>) -> bool {
    p.len() == 0 || p == dot_dot()
}

/// A non-empty dataset-relative path: already trimmed, not absolute, free of
/// backslashes and control characters, with no empty or `..` segment.
pub open spec fn safe_relative_path(v: Seq<char>) -> bool {
    &&& !text::all_space(v)
    &&& text::trim(v) == v
    &&& v.len() > 0 && v[0] != '/'
    &&& forall|i: int| 0 <= i < v.len() ==> #[trigger] v[i] != '\\' && !is_control_char(v[i])
    &&& forall|i: int| 0 <= i < split(v, '/').len() ==> !bad_segment(#[trigger] split(v, '/')[i])
}

fn is_bad_segment(p: &Vec<char>) -> (r: bool)
    ensures
        r == bad_segment(p@),
{
    if p.len() == 0 {
        return true;
    }
    if p.len() == 2 && p[0] == '.' && p[1] == '.' {
        assert(p@ =~= dot_dot());
        return true;
    }
    if p.len() == 2 {
        assert(p@ != dot_dot() ==> (p@[0] != '.' || p@[1] != '.'));
    }
    false
}

/// Whether `value` is a safe dataset-relative path.
pub fn is_safe_relative_path(value: &str) -> (r: bool)
    ensures
        r == safe_relative_path(value@),
{
    if text::is_blank(value) {
        return false;
    }
    let t = text::trimmed_chars(value);
    let v = text::chars_of(value);
    if !text::chars_eq(&t, &v) {
        return false;
    }
    if v[0] == '/' {
        return false;
    }
    let n = v.len();
    let mut cur: Vec<char> = Vec::new();
    let ghost mut done: Seq<Seq<char>> = Seq::empty();
    let mut i: usize = 0;
    assert(v@.subrange(0, 0) =~= Seq::<char>::empty());
    assert(split(Seq::<char>::empty(), '/') =~= seq![Seq::<char>::empty()]);
    while i < n
        invariant
            v@ == value@,
            n == v@.len(),
            n > 0 && v@[0] != '/',
            text::trim(value@) == value@,
            !text::all_space(value@),
            i <= n,
            split(v@.subrange(0, i as int), '/') =~= done.push(cur@),
            forall|j: int| 0 <= j < i ==> #[trigger] v@[j] != '\\' && !is_control_char(v@[j]),
            forall|j: int| 0 <= j < done.len() ==> !bad_segment(#[trigger] done[j]),
        decreases n - i,
    {
        let c = v[i];
        let u = c as u32;
        if c == '\\' || u <= 31 || u == 127 {
            assert(v@[i as int] == '\\' || is_control_char(v@[i as int]));
            return false;
        }
        let ghost pre = v@.subrange(0, i as int);
        assert(v@.subrange(0, i + 1).drop_last() =~= pre);
        assert(v@.subrange(0, i + 1).last() == c);
        if c == '/' {
            if is_bad_segment(&cur) {
                proof {
                    lemma_split_prefix(v@, '/', i as int);
                }
                assert(split(v@, '/')[done.len() as int] == cur@);
                return false;
            }
            proof {
                done = done.push(cur@);
            }
            cur = Vec::new();
        } else {
            cur.push(c);
        }
        i += 1;
    }
    assert(v@.subrange(0, n as int) =~= v@);
    if is_bad_segment(&cur) {
        assert(split(v@, '/')[done.len() as int] == cur@);
        return false;
    }
    assert forall|j: int| 0 <= j < split(v@, '/').len() implies !bad_segment(
        #[trigger] split(v@, '/')[j],
    ) by {
        if j < done.len() {
            assert(split(v@, '/')[j] == done[j]);
        }
    }
    true
}

/// The pieces of a prefix ending at a separator stay pieces of the whole.
pub proof fn lemma_split_prefix(s: Seq<char>, sep: char, i: int)
    requires
        0 <= i < s.len(),
        s[i] == sep,
    ensures
        split(s, sep).len() > split(s.subrange(0, i), sep).len(),
        forall|j: int|
            0 <= j < split(s.subrange(0, i), sep).len() ==> #[trigger] split(s, sep)[j] == split(
                s.subrange(0, i),
                sep,
            )[j],
    decreases s.len(),
{
    lemma_split_nonempty(s.subrange(0, i), sep);
    if i == s.len() - 1 {
        assert(s.drop_last() =~= s.subrange(0, i));
    } else {
        lemma_split_prefix(s.drop_last(), sep, i);
        assert(s.drop_last().subrange(0, i) =~= s.subrange(0, i));
        lemma_split_nonempty(s.drop_last(), sep);
    }
}

/// A character allowed in an import identity component.
pub open spec fn identity_char(c: char) -> bool {
    ('a' <= c <= 'z') || ('A' <= c <= 'Z') || ('0' <= c <= '9') || c == '_' || c == '-' || c
        == '.'
}

/// A trimmed, non-empty identity of at most 255 ASCII letters, digits, `_`,
/// `-` or `.`.
pub open spec fn valid_identity(v: Seq<char>) -> bool {
    let t = text::trim(v);
    &&& 0 < t.len() <= 255
    &&& forall|i: int| 0 <= i < t.len() ==> identity_char(#[trigger] t[i])
}

/// Whether `value` is a valid import identity component.
pub fn valid_identity_component(value: &str) -> (r: bool)
    ensures
        r == valid_identity(value@),
{
    let t = text::trimmed_chars(value);
    if t.len() == 0 || t.len() > 255 {
        return false;
    }
    let mut i: usize = 0;
    while i < t.len()
        invariant
            i <= t@.len(),
            t@ == text::trim(value@),
            0 < t@.len() <= 255,
            forall|j: int| 0 <= j < i ==> identity_char(#[trigger] t@[j]),
        decreases t.len() - i,
    {
        let c = t[i];
        if !(('a' <= c && c <= 'z') || ('A' <= c && c <= 'Z') || ('0' <= c && c <= '9') || c
            == '_' || c == '-' || c == '.') {
            assert(!identity_char(t@[i as int]));
            return false;
        }
        i += 1;
    }
    true
}

/// A path names an image by one of the known image extensions, in any case.
pub open spec fn image_path(v: Seq<char>) -> bool {
    let lower = text::ascii_lower_seq(v);
    ||| text::ends_with(lower, ".jpg"@)
    ||| text::ends_with(lower, ".jpeg"@)
    ||| text::ends_with(lower, ".png"@)
    ||| text::ends_with(lower, ".webp"@)
    ||| text::ends_with(lower, ".bmp"@)
    ||| text::ends_with(lower, ".gif"@)
}

/// Whether `path` names an image file.
pub fn is_image_path(path: &str) -> (r: bool)
    ensures
        r == image_path(path@),
{
    let lower = text::ascii_lowercase_chars(path);
    text::chars_end_with(&lower, &text::chars_of(".jpg")) || text::chars_end_with(
        &lower,
        &text::chars_of(".jpeg"),
    ) || text::chars_end_with(&lower, &text::chars_of(".png")) || text::chars_end_with(
        &lower,
        &text::chars_of(".webp"),
    ) || text::chars_end_with(&lower, &text::chars_of(".bmp")) || text::chars_end_with(
        &lower,
        &text::chars_of(".gif"),
    )
}

/// The part of `v` before its last `/`, if it has one.
pub open spec fn before_last_slash(v: Seq<char>) -> Option<Seq<char>>
    decreases v.len(),
{
    if v.len() == 0 {
        None
    } else if v.last() == '/' {
        Some(v.drop_last())
    } else {
        before_last_slash(v.drop_last())
    }
}

/// The directory part of a source path: what precedes its last `/`, or
/// nothing when it has none.
pub fn parent_source_directory(path: &str) -> (r: String)
    ensures
        r@ == match before_last_slash(path@) {
            Some(parent) => parent,
            None => Seq::empty(),
        },
{
    let v = text::chars_of(path);
    let mut k: usize = v.len();
    assert(v@.subrange(0, k as int) =~= v@);
    while k > 0 && v[k - 1] != '/'
        invariant
            k <= v@.len(),
            before_last_slash(path@) == before_last_slash(v@.subrange(0, k as int)),
            v@ == path@,
        decreases k,
    {
        assert(v@.subrange(0, k as int).drop_last() =~= v@.subrange(0, k - 1));
        k -= 1;
    }
    if k == 0 {
        return String::new();
    }
    assert(v@.subrange(0, k as int).drop_last() =~= v@.subrange(0, k - 1));
    let mut out: Vec<char> = Vec::new();
    let mut i: usize = 0;
    while i < k - 1
        invariant
            0 < k <= v@.len(),
            i <= k - 1,
            out@ =~= v@.subrange(0, i as int),
        decreases k - 1 - i,
    {
        out.push(v[i]);
        i += 1;
    }
    text::string_from_chars(&out)
}

/// The trimmed, non-empty pieces of `parts`, in order.
pub open spec fn nonempty_trimmed(parts: Seq<Seq<char>>) -> Seq<Seq<char>>
    decreases parts.len(),
{
    if parts.len() == 0 {
        Seq::empty()
    } else {
        let rest = nonempty_trimmed(parts.drop_last());
        let t = text::trim(parts.last());
        if t.len() > 0 {
            rest.push(t)
        } else {
            rest
        }
    }
}

/// The comma-separated entries of `value`, trimmed, without empty ones.
pub open spec fn csv_entries(value: Seq<char>) -> Seq<Seq<char>> {
    nonempty_trimmed(split(value, ','))
}

/// Splits a comma-separated list into its trimmed, non-empty entries.
pub fn split_csv(value: &str) -> (r: Vec<String>)
    ensures
        views(r@) == csv_entries(value@),
{
    let v = text::chars_of(value);
    let n = v.len();
    let mut out: Vec<String> = Vec::new();
    let mut cur: Vec<char> = Vec::new();
    let ghost mut done: Seq<Seq<char>> = Seq::empty();
    let mut i: usize = 0;
    assert(v@.subrange(0, 0) =~= Seq::<char>::empty());
    assert(split(Seq::<char>::empty(), ',') =~= seq![Seq::<char>::empty()]);
    while i < n
        invariant
            v@ == value@,
            n == v@.len(),
            i <= n,
            split(v@.subrange(0, i as int), ',') =~= done.push(cur@),
            views(out@) =~= nonempty_trimmed(done),
        decreases n - i,
    {
        let c = v[i];
        let ghost pre = v@.subrange(0, i as int);
        assert(v@.subrange(0, i + 1).drop_last() =~= pre);
        assert(v@.subrange(0, i + 1).last() == c);
        if c == ',' {
            let t = text::trim_vec(&cur);
            if t.len() > 0 {
                let s = text::string_from_chars(&t);
                out.push(s);
            }
            proof {
                assert(done.push(cur@).drop_last() =~= done);
                done = done.push(cur@);
            }
            cur = Vec::new();
        } else {
            cur.push(c);
        }
        i += 1;
    }
    assert(v@.subrange(0, n as int) =~= v@);
    let t = text::trim_vec(&cur);
    if t.len() > 0 {
        let s = text::string_from_chars(&t);
        out.push(s);
    }
    assert(done.push(cur@).drop_last() =~= done);
    out
}

/// Whether `values` holds a string equal to `s`.
pub fn contains_string(values: &Vec<String>, s: &str) -> (r: bool)
    ensures
        r == views(values@).contains(s@),
{
    let mut i: usize = 0;
    while i < values.len()
        invariant
            i <= values@.len(),
            forall|j: int| 0 <= j < i ==> values@[j]@ != s@,
        decreases values.len() - i,
    {
        if text::str_eq(values[i].as_str(), s) {
            assert(views(values@)[i as int] == s@);
            return true;
        }
        i += 1;
    }
    assert forall|j: int| 0 <= j < views(values@).len() implies views(values@)[j] != s@ by {
        assert(views(values@)[j] == values@[j]@);
    }
    false
}

/// Among `n + 1` distinct candidates at most `n` values can be taken, so one
/// of the candidates numbered 1 through `n + 1` is free.
pub proof fn lemma_free_candidate(values: Seq<Seq<char>>, cand: spec_fn(int) -> Seq<char>)
    requires
        forall|a: int, b: int|
            1 <= a <= values.len() + 1 && 1 <= b <= values.len() + 1 && #[trigger] cand(a)
                == #[trigger] cand(b) ==> a == b,
    ensures
        exists|k: int| 1 <= k <= values.len() + 1 && !values.contains(#[trigger] cand(k)),
{
    let n = values.len() as int;
    let x = vstd::set_lib::set_int_range(1, n + 2);
    vstd::set_lib::lemma_int_range(1, n + 2);
    let y = x.map(cand);
    assert(vstd::relations::injective_on(cand, x));
    vstd::set_lib::lemma_map_size(x, y, cand);
    if forall|k: int| 1 <= k <= n + 1 ==> values.contains(#[trigger] cand(k)) {
        assert(y.subset_of(values.to_set())) by {
            assert forall|e: Seq<char>| y.contains(e) implies values.to_set().contains(e) by {
                let k = choose|k: int| x.contains(k) && cand(k) == e;
                assert(values.contains(cand(k)));
            }
        }
        values.lemma_cardinality_of_set();
        vstd::seq_lib::seq_to_set_is_finite(values);
        vstd::set_lib::lemma_len_subset(y, values.to_set());
        assert(false);
    }
}

/// The candidate `prefix_k`.
pub open spec fn numbered(prefix: Seq<char>, k: nat) -> Seq<char> {
    prefix + "_"@ + text::decimal(k)
}

/// Numbered candidates with different numbers differ.
pub proof fn lemma_numbered_injective(prefix: Seq<char>, a: nat, b: nat)
    requires
        numbered(prefix, a) == numbered(prefix, b),
    ensures
        a == b,
{
    let p = prefix + "_"@;
    assert(numbered(prefix, a).subrange(p.len() as int, numbered(prefix, a).len() as int)
        =~= text::decimal(a));
    assert(numbered(prefix, b).subrange(p.len() as int, numbered(prefix, b).len() as int)
        =~= text::decimal(b));
    text::lemma_decimal_injective(a, b);
}

/// The first of `prefix_1`, `prefix_2`, ... that is not among `values`.
pub fn next_numbered_id(prefix: &str, values: &Vec<String>) -> (r: String)
    requires
        values@.len() < usize::MAX,
    ensures
        exists|k: nat|
            k >= 1 && r@ == numbered(prefix@, k) && !views(values@).contains(#[trigger] numbered(
                prefix@,
                k,
            )) && forall|j: nat|
                1 <= j < k ==> views(values@).contains(#[trigger] numbered(prefix@, j)),
{
    let ghost vals = views(values@);
    let ghost cand = |k: int| numbered(prefix@, k as nat);
    proof {
        assert forall|a: int, b: int|
            1 <= a <= vals.len() + 1 && 1 <= b <= vals.len() + 1 && #[trigger] cand(a)
                == #[trigger] cand(b) implies a == b by {
            lemma_numbered_injective(prefix@, a as nat, b as nat);
        }
        lemma_free_candidate(vals, cand);
    }
    let ghost free = choose|k: int| 1 <= k <= vals.len() + 1 && !vals.contains(#[trigger] cand(k));
    assert(cand(free) == numbered(prefix@, free as nat));
    let mut k: usize = 1;
    loop
        invariant
            1 <= k <= free,
            free <= vals.len() + 1,
            vals == views(values@),
            !vals.contains(numbered(prefix@, free as nat)),
            values@.len() < usize::MAX,
            forall|j: nat| 1 <= j < k ==> vals.contains(#[trigger] numbered(prefix@, j)),
        decreases free - k,
    {
        let mut candidate = String::new();
        text::push_str(&mut candidate, prefix);
        text::push_str(&mut candidate, "_");
        text::push_decimal(&mut candidate, k as u64);
        assert(candidate@ =~= numbered(prefix@, k as nat));
        if !contains_string(values, candidate.as_str()) {
            return candidate;
        }
        assert(k != free);
        k += 1;
    }
}

/// `s` without the entries equal to `x`, in order.
pub open spec fn without(s: Seq<Seq<char>>, x: Seq<char>) -> Seq<Seq<char>>
    decreases s.len(),
{
    if s.len() == 0 {
        seq![]
    } else {
        let r = without(s.drop_last(), x);
        if s.last() == x {
            r
        } else {
            r.push(s.last())
        }
    }
}

/// Drops every entry equal to `x`, keeping the others in order.
pub fn retain_other(values: &mut Vec<String>, x: &str)
    ensures
        views(final(values)@) == without(views(old(values)@), x@),
{
    let ghost all = views(values@);
    let mut kept: Vec<String> = Vec::new();
    let mut i: usize = 0;
    while i < values.len()
        invariant
            i <= values@.len(),
            all == views(values@),
            views(kept@) == without(all.subrange(0, i as int), x@),
        decreases values.len() - i,
    {
        assert(all.subrange(0, i + 1).drop_last() =~= all.subrange(0, i as int));
        assert(all.subrange(0, i + 1).last() == values@[i as int]@);
        if !text::str_eq(values[i].as_str(), x) {
            let c = values[i].clone();
            let ghost before = views(kept@);
            kept.push(c);
            assert(views(kept@) =~= before.push(c@));
        }
        i += 1;
    }
    assert(all.subrange(0, all.len() as int) =~= all);
    *values = kept;
}

/// Nothing equal to `x` is left, and everything else is kept.
pub proof fn lemma_without(s: Seq<Seq<char>>, x: Seq<char>)
    ensures
        !without(s, x).contains(x),
        forall|y: Seq<char>| y != x ==> (#[trigger] without(s, x).contains(y) <==> s.contains(y)),
    decreases s.len(),
{
    if s.len() > 0 {
        let d = s.drop_last();
        lemma_without(d, x);
        let r = without(s, x);
        let rd = without(d, x);
        assert forall|y: Seq<char>| y != x implies (#[trigger] r.contains(y) <==> s.contains(y)) by {
            if r.contains(y) {
                let w = choose|w: int| 0 <= w < r.len() && r[w] == y;
                if w < rd.len() {
                    assert(rd[w] == y);
                    assert(rd.contains(y));
                    assert(d.contains(y));
                    let v = choose|v: int| 0 <= v < d.len() && d[v] == y;
                    assert(s[v] == d[v]);
                } else {
                    assert(s[s.len() - 1] == y);
                }
            }
            if s.contains(y) {
                let v = choose|v: int| 0 <= v < s.len() && s[v] == y;
                if v < d.len() {
                    assert(d[v] == y);
                    assert(d.contains(y));
                    assert(rd.contains(y));
                    let w = choose|w: int| 0 <= w < rd.len() && rd[w] == y;
                    if s.last() == x {
                        assert(r == rd);
                    } else {
                        assert(r == rd.push(s.last()));
                    }
                    assert(r[w] == rd[w]);
                } else {
                    assert(r[r.len() - 1] == y);
                }
            }
        }
        if r.contains(x) {
            let w = choose|w: int| 0 <= w < r.len() && r[w] == x;
            if w < rd.len() {
                assert(rd[w] == x);
            }
        }
    }
}

} // verus!
