//! Character-level text utilities shared by the paste parser, the codec and
//! the renderers: ASCII case folding, trimming, substring search and
//! splitting, and decimal rendering/parsing of small integers.
use vstd::prelude::*;

verus! {

// ---------------------------------------------------------------------------
// case folding
// ---------------------------------------------------------------------------
/// ASCII lower-casing of a single character; non-ASCII characters are kept.
pub open spec fn lower_char(c: char) -> char {
    if 'A' <= c && c <= 'Z' {
        (((c as u8) + 32) as char)
    } else {
        c
    }
}

/// ASCII upper-casing of a single character; non-ASCII characters are kept.
pub open spec fn upper_char(c: char) -> char {
    if 'a' <= c && c <= 'z' {
        (((c as u8) - 32) as char)
    } else {
        c
    }
}

/// ASCII case folding of a whole string.
pub open spec fn fold_chars(s: Seq<char>) -> Seq<char> {
    s.map_values(|c: char| lower_char(c))
}

pub open spec fn upper_chars(s: Seq<char>) -> Seq<char> {
    s.map_values(|c: char| upper_char(c))
}

pub fn lower_char_exec(c: char) -> (r: char)
    ensures
        r == lower_char(c),
{
    if 'A' <= c && c <= 'Z' {
        ((c as u8) + 32) as char
    } else {
        c
    }
}

pub fn upper_char_exec(c: char) -> (r: char)
    ensures
        r == upper_char(c),
{
    if 'a' <= c && c <= 'z' {
        ((c as u8) - 32) as char
    } else {
        c
    }
}

/// The lower-cased form of a string, by the full Unicode mapping.
pub uninterp spec fn lower_of(s: Seq<char>) -> Seq<char>;

/// Relies on std's `str::to_lowercase`: the result is locale-independent
/// and depends on the characters alone.
#[verifier::external_body]
pub(crate) fn lowercase(s: &str) -> (r: String)
    ensures
        r@ == lower_of(s@),
{
    s.to_lowercase()
}

pub fn to_lower(v: &Vec<char>) -> (r: Vec<char>)
    ensures
        r@ == fold_chars(v@),
{
    let mut r: Vec<char> = Vec::new();
    let mut i: usize = 0;
    while i < v.len()
        invariant
            i <= v.len(),
            r@ == fold_chars(v@.take(i as int)),
        decreases v.len() - i,
    {
        r.push(lower_char_exec(v[i]));
        proof {
            assert(fold_chars(v@.take(i + 1 as int)) =~= fold_chars(v@.take(i as int)).push(
                lower_char(v@[i as int]),
            ));
        }
        i = i + 1;
    }
    proof {
        assert(v@.take(v@.len() as int) =~= v@);
    }
    r
}

pub fn to_upper(v: &Vec<char>) -> (r: Vec<char>)
    ensures
        r@ == upper_chars(v@),
{
    let mut r: Vec<char> = Vec::new();
    let mut i: usize = 0;
    while i < v.len()
        invariant
            i <= v.len(),
            r@ == upper_chars(v@.take(i as int)),
        decreases v.len() - i,
    {
        r.push(upper_char_exec(v[i]));
        proof {
            assert(upper_chars(v@.take(i + 1 as int)) =~= upper_chars(v@.take(i as int)).push(
                upper_char(v@[i as int]),
            ));
        }
        i = i + 1;
    }
    proof {
        assert(v@.take(v@.len() as int) =~= v@);
    }
    r
}

// ---------------------------------------------------------------------------
// conversions between &str / String and Vec<char>
// ---------------------------------------------------------------------------
pub fn chars_of(s: &str) -> (r: Vec<char>)
    ensures
        r@ == s@,
{
    let n: usize = s.unicode_len();
    let mut r: Vec<char> = Vec::new();
    let mut i: usize = 0;
    while i < n
        invariant
            i <= n,
            n == s@.len(),
            r@ == s@.take(i as int),
        decreases n - i,
    {
        r.push(s.get_char(i));
        proof {
            assert(s@.take(i + 1 as int) =~= s@.take(i as int).push(s@[i as int]));
        }
        i = i + 1;
    }
    proof {
        assert(s@.take(s@.len() as int) =~= s@);
    }
    r
}

/// Relies on std's `String::push`: appends the given character to the end of
/// the string.
#[verifier::external_body]
fn push_char(s: &mut String, c: char)
    ensures
        final(s)@ == old(s)@.push(c),
{
    s.push(c);
}

pub fn string_of(v: &Vec<char>) -> (r: String)
    ensures
        r@ == v@,
{
    let mut r = String::new();
    let mut i: usize = 0;
    while i < v.len()
        invariant
            i <= v.len(),
            r@ == v@.take(i as int),
        decreases v.len() - i,
    {
        push_char(&mut r, v[i]);
        proof {
            assert(v@.take(i + 1 as int) =~= v@.take(i as int).push(v@[i as int]));
        }
        i = i + 1;
    }
    proof {
        assert(v@.take(v@.len() as int) =~= v@);
    }
    r
}

// ---------------------------------------------------------------------------
// basic sequence helpers
// ---------------------------------------------------------------------------
pub fn sub_chars(v: &Vec<char>, a: usize, b: usize) -> (r: Vec<char>)
    requires
        a <= b <= v@.len(),
    ensures
        r@ == v@.subrange(a as int, b as int),
{
    let mut r: Vec<char> = Vec::new();
    let mut i: usize = a;
    while i < b
        invariant
            a <= i <= b <= v@.len(),
            r@ == v@.subrange(a as int, i as int),
        decreases b - i,
    {
        r.push(v[i]);
        proof {
            assert(v@.subrange(a as int, i + 1 as int) =~= v@.subrange(a as int, i as int).push(
                v@[i as int],
            ));
        }
        i = i + 1;
    }
    r
}

pub fn eq_chars(a: &Vec<char>, b: &Vec<char>) -> (r: bool)
    ensures
        r == (a@ == b@),
{
    if a.len() != b.len() {
        return false;
    }
    let mut i: usize = 0;
    while i < a.len()
        invariant
            i <= a@.len(),
            a@.len() == b@.len(),
            forall|j: int| 0 <= j < i ==> a@[j] == b@[j],
        decreases a.len() - i,
    {
        if a[i] != b[i] {
            return false;
        }
        i = i + 1;
    }
    proof {
        assert(a@ =~= b@);
    }
    true
}

pub fn chars_eq_str(v: &Vec<char>, s: &str) -> (r: bool)
    ensures
        r == (v@ == s@),
{
    let n: usize = s.unicode_len();
    if v.len() != n {
        return false;
    }
    let mut i: usize = 0;
    while i < n
        invariant
            i <= n,
            n == s@.len(),
            v@.len() == n,
            forall|j: int| 0 <= j < i ==> v@[j] == s@[j],
        decreases n - i,
    {
        if v[i] != s.get_char(i) {
            return false;
        }
        i = i + 1;
    }
    proof {
        assert(v@ =~= s@);
    }
    true
}

pub fn contains_char(v: &Vec<char>, c: char) -> (r: bool)
    ensures
        r == v@.contains(c),
{
    let mut i: usize = 0;
    while i < v.len()
        invariant
            i <= v@.len(),
            forall|j: int| 0 <= j < i ==> v@[j] != c,
        decreases v.len() - i,
    {
        if v[i] == c {
            return true;
        }
        i = i + 1;
    }
    false
}

// ---------------------------------------------------------------------------
// trimming
// ---------------------------------------------------------------------------
/// The whitespace recognised when lines and fields are trimmed: the
/// Unicode `White_Space` characters, the set std's `str::trim` removes.
pub open spec fn is_space_char(c: char) -> bool {
    let u = c as u32;
    u == 0x9 || u == 0xA || u == 0xB || u == 0xC || u == 0xD || u == 0x20 || u == 0x85 || u
        == 0xA0 || u == 0x1680 || (0x2000 <= u && u <= 0x200A) || u == 0x2028 || u == 0x2029 || u
        == 0x202F || u == 0x205F || u == 0x3000
}

pub open spec fn trim_start_spec(s: Seq<char>) -> Seq<char>
    decreases s.len(),
{
    if s.len() > 0 && is_space_char(s[0]) {
        trim_start_spec(s.drop_first())
    } else {
        s
    }
}

pub open spec fn trim_end_spec(s: Seq<char>) -> Seq<char>
    decreases s.len(),
{
    if s.len() > 0 && is_space_char(s.last()) {
        trim_end_spec(s.drop_last())
    } else {
        s
    }
}

/// Leading and trailing blanks removed.
pub open spec fn trim_spec(s: Seq<char>) -> Seq<char> {
    trim_end_spec(trim_start_spec(s))
}

pub fn is_space_exec(c: char) -> (r: bool)
    ensures
        r == is_space_char(c),
{
    let u: u32 = c as u32;
    u == 0x9 || u == 0xA || u == 0xB || u == 0xC || u == 0xD || u == 0x20 || u == 0x85 || u
        == 0xA0 || u == 0x1680 || (0x2000 <= u && u <= 0x200A) || u == 0x2028 || u == 0x2029 || u
        == 0x202F || u == 0x205F || u == 0x3000
}

proof fn lemma_trim_start_skip(s: Seq<char>, i: int)
    requires
        0 <= i <= s.len(),
        forall|j: int| 0 <= j < i ==> is_space_char(s[j]),
        i == s.len() || !is_space_char(s[i]),
    ensures
        trim_start_spec(s) == s.skip(i),
    decreases i,
{
    if i == 0 {
        assert(s.skip(0) =~= s);
    } else {
        assert(is_space_char(s[0]));
        lemma_trim_start_skip(s.drop_first(), i - 1);
        assert(s.drop_first().skip(i - 1) =~= s.skip(i));
    }
}

proof fn lemma_trim_end_take(s: Seq<char>, k: int)
    requires
        0 <= k <= s.len(),
        forall|j: int| k <= j < s.len() ==> is_space_char(s[j]),
        k == 0 || !is_space_char(s[k - 1]),
    ensures
        trim_end_spec(s) == s.take(k),
    decreases s.len(),
{
    if k == s.len() {
        if s.len() == 0 {
            assert(s.take(0) =~= s);
        } else {
            assert(s.take(k) =~= s);
        }
    } else {
        assert(is_space_char(s.last()));
        lemma_trim_end_take(s.drop_last(), k);
        assert(s.drop_last().take(k) =~= s.take(k));
    }
}

pub fn trim_chars(v: &Vec<char>) -> (r: Vec<char>)
    ensures
        r@ == trim_spec(v@),
{
    let mut i: usize = 0;
    while i < v.len() && is_space_exec(v[i])
        invariant
            i <= v@.len(),
            forall|j: int| 0 <= j < i ==> is_space_char(v@[j]),
        decreases v.len() - i,
    {
        i = i + 1;
    }
    proof {
        lemma_trim_start_skip(v@, i as int);
    }
    if i == v.len() {
        let r: Vec<char> = Vec::new();
        proof {
            assert(v@.skip(i as int) =~= Seq::<char>::empty());
            assert(trim_end_spec(Seq::<char>::empty()) == Seq::<char>::empty());
            assert(r@ =~= trim_spec(v@));
        }
        return r;
    }
    let mut k: usize = v.len();
    while k > i && is_space_exec(v[k - 1])
        invariant
            i <= k <= v@.len(),
            forall|j: int| k <= j < v@.len() ==> is_space_char(v@[j]),
        decreases k,
    {
        k = k - 1;
    }
    // the character at i is not a space, so the scan from the right stopped
    // at some k > i with a non-space just before it
    assert(!is_space_char(v@[i as int]));
    assert(k > i);
    let r = sub_chars(v, i, k);
    proof {
        let t = v@.skip(i as int);
        lemma_trim_end_take(t, k - i);
        assert(t.take(k - i) =~= v@.subrange(i as int, k as int));
    }
    r
}

// ---------------------------------------------------------------------------
// substring matching and splitting
// ---------------------------------------------------------------------------
/// The separator `sep` occurs in `s` at position `i`.
pub open spec fn match_at(s: Seq<char>, sep: Seq<char>, i: int) -> bool {
    0 <= i && i + sep.len() <= s.len() && s.subrange(i, i + sep.len() as int) == sep
}

/// No occurrence of `sep` starts before position `i`.
pub open spec fn no_match_before(s: Seq<char>, sep: Seq<char>, i: int) -> bool {
    forall|j: int| 0 <= j < i ==> !match_at(s, sep, j)
}

/// The parts of `s` between the non-overlapping, leftmost-first occurrences
/// of `sep`; splitting text with no occurrence yields one part, and each
/// occurrence adds one more.
pub open spec fn split_on_spec(s: Seq<char>, sep: Seq<char>) -> Seq<Seq<char>>
    decreases s.len(),
        when sep.len() > 0
{
    if s.len() == 0 {
        seq![s]
    } else if s.len() >= sep.len() && s.take(sep.len() as int) == sep {
        seq![Seq::<char>::empty()] + split_on_spec(s.skip(sep.len() as int), sep)
    } else {
        let r = split_on_spec(s.drop_first(), sep);
        seq![seq![s[0]] + r[0]] + r.drop_first()
    }
}

pub proof fn lemma_split_nonempty(s: Seq<char>, sep: Seq<char>)
    requires
        sep.len() > 0,
    ensures
        split_on_spec(s, sep).len() >= 1,
    decreases s.len(),
{
    if s.len() == 0 {
    } else if s.len() >= sep.len() && s.take(sep.len() as int) == sep {
    } else {
        lemma_split_nonempty(s.drop_first(), sep);
    }
}

/// Splitting text with no occurrence of the separator yields the text as the
/// single part.
pub proof fn lemma_split_none(s: Seq<char>, sep: Seq<char>)
    requires
        sep.len() > 0,
        forall|j: int| !match_at(s, sep, j),
    ensures
        split_on_spec(s, sep) == seq![s],
    decreases s.len(),
{
    if s.len() == 0 {
    } else if s.len() >= sep.len() && s.take(sep.len() as int) == sep {
        assert(s.take(sep.len() as int) =~= s.subrange(0, sep.len() as int));
        assert(match_at(s, sep, 0));
    } else {
        assert forall|j: int| !match_at(s.drop_first(), sep, j) by {
            if match_at(s.drop_first(), sep, j) {
                assert(s.drop_first().subrange(j, j + sep.len() as int) =~= s.subrange(
                    j + 1,
                    j + 1 + sep.len() as int,
                ));
                assert(match_at(s, sep, j + 1));
            }
        }
        lemma_split_none(s.drop_first(), sep);
        let r = split_on_spec(s.drop_first(), sep);
        assert(seq![s[0]] + r[0] =~= s);
        assert(seq![seq![s[0]] + r[0]] + r.drop_first() =~~= seq![s]);
    }
}

/// Splitting text whose first occurrence of the separator starts at `i` cuts
/// the part before `i` off and goes on behind the occurrence.
pub proof fn lemma_split_at(s: Seq<char>, sep: Seq<char>, i: int)
    requires
        sep.len() > 0,
        match_at(s, sep, i),
        no_match_before(s, sep, i),
    ensures
        split_on_spec(s, sep) == seq![s.take(i)] + split_on_spec(
            s.skip(i + sep.len() as int),
            sep,
        ),
    decreases s.len(),
{
    if i == 0 {
        assert(s.take(sep.len() as int) =~= s.subrange(0, sep.len() as int));
        assert(s.len() >= sep.len() && s.take(sep.len() as int) == sep);
        assert(s.take(0) =~= Seq::<char>::empty());
        assert(seq![Seq::<char>::empty()] + split_on_spec(s.skip(sep.len() as int), sep)
            =~= seq![s.take(0)] + split_on_spec(s.skip(sep.len() as int), sep));
    } else {
        assert(!match_at(s, sep, 0));
        if s.len() >= sep.len() && s.take(sep.len() as int) == sep {
            assert(s.take(sep.len() as int) =~= s.subrange(0, sep.len() as int));
            assert(match_at(s, sep, 0));
        }
        let t = s.drop_first();
        assert(t.subrange(i - 1, i - 1 + sep.len() as int) =~= s.subrange(
            i,
            i + sep.len() as int,
        ));
        assert(match_at(t, sep, i - 1));
        assert forall|j: int| 0 <= j < i - 1 implies !match_at(t, sep, j) by {
            if match_at(t, sep, j) {
                assert(t.subrange(j, j + sep.len() as int) =~= s.subrange(
                    j + 1,
                    j + 1 + sep.len() as int,
                ));
                assert(match_at(s, sep, j + 1));
            }
        }
        lemma_split_at(t, sep, i - 1);
        let r = split_on_spec(t, sep);
        lemma_split_nonempty(s.skip(i + sep.len() as int), sep);
        assert(r[0] == t.take(i - 1));
        assert(seq![s[0]] + t.take(i - 1) =~= s.take(i));
        assert(t.skip(i - 1 + sep.len() as int) =~= s.skip(i + sep.len() as int));
        assert(seq![seq![s[0]] + r[0]] + r.drop_first() =~~= seq![s.take(i)] + split_on_spec(
            s.skip(i + sep.len() as int),
            sep,
        ));
    }
}

fn match_at_exec(v: &Vec<char>, sep: &Vec<char>, i: usize) -> (r: bool)
    requires
        i + sep@.len() <= v@.len(),
    ensures
        r == match_at(v@, sep@, i as int),
{
    let n: usize = v.len();
    let m: usize = sep.len();
    let mut j: usize = 0;
    while j < m
        invariant
            j <= m,
            m == sep@.len(),
            n == v@.len(),
            i + m <= n,
            forall|k: int| 0 <= k < j ==> v@[i + k] == sep@[k],
        decreases m - j,
    {
        if v[i + j] != sep[j] {
            proof {
                assert(v@.subrange(i as int, i + sep@.len() as int)[j as int] == v@[i + j]);
            }
            return false;
        }
        j = j + 1;
    }
    proof {
        assert(v@.subrange(i as int, i + sep@.len() as int) =~= sep@);
    }
    true
}

pub fn split_on(v: &Vec<char>, sep: &Vec<char>) -> (r: Vec<Vec<char>>)
    requires
        sep@.len() >= 1,
    ensures
        r.deep_view() == split_on_spec(v@, sep@),
        r@.len() >= 1,
{
    let n: usize = v.len();
    let mut parts: Vec<Vec<char>> = Vec::new();
    let mut cur: usize = 0;
    let mut i: usize = 0;
    proof {
        assert(v@.skip(0) =~= v@);
        assert(parts.deep_view() =~= Seq::<Seq<char>>::empty());
        assert(parts.deep_view() + split_on_spec(v@, sep@) =~= split_on_spec(v@, sep@));
    }
    loop
        invariant
            sep@.len() >= 1,
            n == v@.len(),
            cur <= i <= n,
            forall|j: int| cur <= j < i ==> !match_at(v@, sep@, j),
            split_on_spec(v@, sep@) == parts.deep_view() + split_on_spec(
                v@.skip(cur as int),
                sep@,
            ),
        decreases v@.len() - i,
    {
        if n - i >= sep.len() {
            if match_at_exec(v, sep, i) {
                let part = sub_chars(v, cur, i);
                let ghost pre = parts.deep_view();
                proof {
                    let t = v@.skip(cur as int);
                    assert(t.subrange(i - cur, i - cur + sep@.len() as int) =~= v@.subrange(
                        i as int,
                        i + sep@.len() as int,
                    ));
                    assert(match_at(t, sep@, i - cur));
                    assert forall|j: int| 0 <= j < i - cur implies !match_at(t, sep@, j) by {
                        if match_at(t, sep@, j) {
                            assert(t.subrange(j, j + sep@.len() as int) =~= v@.subrange(
                                cur + j,
                                cur + j + sep@.len() as int,
                            ));
                            assert(match_at(v@, sep@, cur + j));
                        }
                    }
                    lemma_split_at(t, sep@, i - cur);
                    assert(t.take(i - cur) =~= v@.subrange(cur as int, i as int));
                    assert(t.skip(i - cur + sep@.len() as int) =~= v@.skip(
                        i + sep@.len() as int,
                    ));
                }
                proof {
                    assert(part.deep_view() =~= part@);
                }
                parts.push(part);
                proof {
                    assert(parts.deep_view() =~= pre.push(v@.subrange(cur as int, i as int)));
                    assert(parts.deep_view() + split_on_spec(
                        v@.skip(i + sep@.len() as int),
                        sep@,
                    ) =~= split_on_spec(v@, sep@));
                }
                cur = i + sep.len();
                i = cur;
            } else {
                i = i + 1;
            }
        } else {
            let part = sub_chars(v, cur, n);
            let ghost pre = parts.deep_view();
            proof {
                let t = v@.skip(cur as int);
                assert forall|j: int| !match_at(t, sep@, j) by {
                    if match_at(t, sep@, j) {
                        if j < i - cur {
                            assert(t.subrange(j, j + sep@.len() as int) =~= v@.subrange(
                                cur + j,
                                cur + j + sep@.len() as int,
                            ));
                            assert(match_at(v@, sep@, cur + j));
                        } else {
                            assert(cur + j + sep@.len() <= v@.len());
                            assert(i + sep@.len() > v@.len());
                        }
                    }
                }
                lemma_split_none(t, sep@);
                assert(t =~= v@.subrange(cur as int, v@.len() as int));
            }
            proof {
                assert(part.deep_view() =~= part@);
            }
            parts.push(part);
            proof {
                assert(parts.deep_view() =~= pre.push(v@.subrange(cur as int, n as int)));
                assert(parts.deep_view() =~~= split_on_spec(v@, sep@));
            }
            return parts;
        }
    }
}

// ---------------------------------------------------------------------------
// joining
// ---------------------------------------------------------------------------
/// The parts glued together with `sep` between neighbours.
pub open spec fn join_spec(parts: Seq<Seq<char>>, sep: Seq<char>) -> Seq<char>
    decreases parts.len(),
{
    if parts.len() == 0 {
        Seq::<char>::empty()
    } else if parts.len() == 1 {
        parts[0]
    } else {
        join_spec(parts.drop_last(), sep) + sep + parts.last()
    }
}

// ---------------------------------------------------------------------------
// decimal rendering and parsing
// ---------------------------------------------------------------------------
pub open spec fn is_digit_char(c: char) -> bool {
    '0' <= c && c <= '9'
}

pub open spec fn digit_val(c: char) -> nat {
    if is_digit_char(c) {
        ((c as u8) - 48) as nat
    } else {
        0
    }
}

pub open spec fn all_digits(s: Seq<char>) -> bool {
    forall|i: int| 0 <= i < s.len() ==> is_digit_char(s[i])
}

/// The number a digit string denotes.
pub open spec fn dec_val(s: Seq<char>) -> nat
    decreases s.len(),
{
    if s.len() == 0 {
        0
    } else {
        dec_val(s.drop_last()) * 10 + digit_val(s.last())
    }
}

pub open spec fn digit_char(d: nat) -> char {
    ((48 + d % 10) as u8) as char
}

/// The shortest decimal rendering of `n` (no leading zeros).
pub open spec fn dec_str(n: nat) -> Seq<char>
    decreases n,
{
    if n < 10 {
        seq![digit_char(n)]
    } else {
        dec_str(n / 10).push(digit_char(n % 10))
    }
}

/// Numeric text is read back as the value it was rendered from.
pub proof fn lemma_dec_str_val(n: nat)
    ensures
        dec_val(dec_str(n)) == n,
        all_digits(dec_str(n)),
        dec_str(n).len() >= 1,
    decreases n,
{
    if n < 10 {
        assert(dec_val(dec_str(n)) == dec_val(seq![digit_char(n)]));
        assert(dec_val(seq![digit_char(n)].drop_last()) == 0);
    } else {
        lemma_dec_str_val(n / 10);
        assert(dec_str(n).drop_last() =~= dec_str(n / 10));
    }
}

/// `Some(v)` when the text is one or more decimal digits, optionally
/// prefixed by a single plus sign, denoting a value that fits in a byte;
/// `None` otherwise. This is the grammar of std's unsigned `parse`.
pub open spec fn parse_u8_spec(s: Seq<char>) -> Option<u8> {
    let t = if s.len() > 0 && s[0] == '+' {
        s.drop_first()
    } else {
        s
    };
    if t.len() > 0 && all_digits(t) && dec_val(t) <= 255 {
        Some(dec_val(t) as u8)
    } else {
        None::<u8>
    }
}

pub fn digit_char_exec(d: u8) -> (r: char)
    requires
        d < 10,
    ensures
        r == digit_char(d as nat),
{
    (48 + d) as char
}

pub fn u8_to_chars(n: u8) -> (r: Vec<char>)
    ensures
        r@ == dec_str(n as nat),
{
    let mut r: Vec<char> = Vec::new();
    if n >= 100 {
        r.push(digit_char_exec(n / 100));
        r.push(digit_char_exec((n / 10) % 10));
        r.push(digit_char_exec(n % 10));
        proof {
            reveal_with_fuel(dec_str, 3);
            assert(n / 10 >= 10);
            assert((n / 10) / 10 == n as nat / 100);
            assert(r@ =~= dec_str(n as nat));
        }
    } else if n >= 10 {
        r.push(digit_char_exec(n / 10));
        r.push(digit_char_exec(n % 10));
        proof {
            reveal_with_fuel(dec_str, 2);
            assert(r@ =~= dec_str(n as nat));
        }
    } else {
        r.push(digit_char_exec(n));
        proof {
            assert(r@ =~= dec_str(n as nat));
        }
    }
    r
}

pub fn parse_u8(v: &Vec<char>) -> (r: Option<u8>)
    ensures
        r == parse_u8_spec(v@),
{
    let n: usize = v.len();
    let start: usize = if n > 0 && v[0] == '+' {
        1
    } else {
        0
    };
    let ghost t = if v@.len() > 0 && v@[0] == '+' {
        v@.drop_first()
    } else {
        v@
    };
    proof {
        assert(t =~= v@.skip(start as int));
    }
    if n == start {
        return None;
    }
    let mut acc: u32 = 0;
    let mut i: usize = start;
    while i < n
        invariant
            start <= i <= n,
            n == v@.len(),
            t == v@.skip(start as int),
            t == (if v@.len() > 0 && v@[0] == '+' {
                v@.drop_first()
            } else {
                v@
            }),
            t.len() == n - start,
            all_digits(t.take(i - start)),
            dec_val(t.take(i - start)) <= 255 ==> acc == dec_val(t.take(i - start)),
            dec_val(t.take(i - start)) > 255 ==> 255 < acc <= 300,
            acc <= 300,
        decreases n - i,
    {
        let c = v[i];
        proof {
            assert(t[i - start] == v@[i as int]);
        }
        if c < '0' || c > '9' {
            assert(!is_digit_char(t[i - start]));
            return None;
        }
        let d: u32 = (c as u32) - 48;
        let next: u32 = acc * 10 + d;
        proof {
            assert(t.take(i - start + 1).drop_last() =~= t.take(i - start));
            assert(dec_val(t.take(i - start + 1)) == dec_val(t.take(i - start)) * 10 + digit_val(
                t[i - start],
            ));
        }
        if next > 300 {
            acc = 300;
        } else {
            acc = next;
        }
        i = i + 1;
    }
    proof {
        assert(t.take(n - start) =~= t);
    }
    if acc > 255 {
        None
    } else {
        Some(acc as u8)
    }
}


// ---------------------------------------------------------------------------
// line splitting
// ---------------------------------------------------------------------------
/// A trailing carriage return removed, as the line iterator of std does.
pub open spec fn strip_cr(s: Seq<char>) -> Seq<char> {
    if s.len() > 0 && s.last() == '\r' {
        s.drop_last()
    } else {
        s
    }
}

/// The lines of a text: pieces between newlines, each with a trailing
/// carriage return removed, and no empty piece after a final newline.
pub open spec fn spec_lines(s: Seq<char>) -> Seq<Seq<char>> {
    let p = split_on_spec(s, seq!['\n']);
    let q = if p.len() > 0 && p.last().len() == 0 {
        p.drop_last()
    } else {
        p
    };
    q.map_values(|x: Seq<char>| strip_cr(x))
}

pub fn lines_of(v: &Vec<char>) -> (r: Vec<Vec<char>>)
    ensures
        r.deep_view() == spec_lines(v@),
{
    let mut sep: Vec<char> = Vec::new();
    sep.push('\n');
    let mut p = split_on(v, &sep);
    proof {
        assert(sep@ =~= seq!['\n']);
        assert(p.deep_view() == split_on_spec(v@, seq!['\n']));
    }
    let plen: usize = p.len();
    if plen > 0 && p[plen - 1].len() == 0 {
        let ghost pre = p.deep_view();
        let _ = p.pop();
        proof {
            assert(p.deep_view() =~= pre.drop_last());
        }
    }
    let ghost q = p.deep_view();
    let mut r: Vec<Vec<char>> = Vec::new();
    let mut i: usize = 0;
    proof {
        assert(r.deep_view() =~= q.take(0).map_values(|x: Seq<char>| strip_cr(x)));
    }
    while i < p.len()
        invariant
            i <= p@.len(),
            q == p.deep_view(),
            r.deep_view() == q.take(i as int).map_values(|x: Seq<char>| strip_cr(x)),
        decreases p@.len() - i,
    {
        let part = &p[i];
        let n: usize = part.len();
        let ghost pre = r.deep_view();
        let stripped: Vec<char> = if n > 0 && part[n - 1] == '\r' {
            sub_chars(part, 0, n - 1)
        } else {
            sub_chars(part, 0, n)
        };
        proof {
            assert(p@[i as int].deep_view() == q[i as int]);
            if n > 0 && part@[n - 1] == '\r' {
                assert(part@.subrange(0, n - 1 as int) =~= strip_cr(part@));
            } else {
                assert(part@.subrange(0, n as int) =~= part@);
                assert(part@.subrange(0, n as int) =~= strip_cr(part@));
            }
            assert(strip_cr(part@) =~= strip_cr(q[i as int]));
            assert(stripped.deep_view() =~= stripped@);
        }
        r.push(stripped);
        proof {
            assert(r.deep_view() =~= pre.push(strip_cr(q[i as int])));
            assert(q.take(i + 1 as int).map_values(|x: Seq<char>| strip_cr(x)) =~= q.take(
                i as int,
            ).map_values(|x: Seq<char>| strip_cr(x)).push(strip_cr(q[i as int])));
        }
        i = i + 1;
    }
    proof {
        assert(q.take(q.len() as int) =~= q);
    }
    r
}


// ---------------------------------------------------------------------------
// single-character search
// ---------------------------------------------------------------------------
/// The first position of `c` in `s`.
pub open spec fn find_char_spec(s: Seq<char>, c: char) -> Option<int>
    decreases s.len(),
{
    if s.len() == 0 {
        None
    } else if s[0] == c {
        Some(0int)
    } else {
        match find_char_spec(s.drop_first(), c) {
            Some(j) => Some(j + 1),
            None => None,
        }
    }
}

pub proof fn lemma_find_char_at(s: Seq<char>, c: char, i: int)
    requires
        0 <= i < s.len(),
        s[i] == c,
        forall|j: int| 0 <= j < i ==> s[j] != c,
    ensures
        find_char_spec(s, c) == Some(i),
    decreases i,
{
    if i > 0 {
        lemma_find_char_at(s.drop_first(), c, i - 1);
    }
}

pub proof fn lemma_find_char_none(s: Seq<char>, c: char)
    requires
        forall|j: int| 0 <= j < s.len() ==> s[j] != c,
    ensures
        find_char_spec(s, c) == None::<int>,
    decreases s.len(),
{
    if s.len() > 0 {
        lemma_find_char_none(s.drop_first(), c);
    }
}

pub fn find_char(v: &Vec<char>, c: char) -> (r: Option<usize>)
    ensures
        match r {
            Some(i) => find_char_spec(v@, c) == Some(i as int) && i < v@.len() && v@[i as int]
                == c,
            None => find_char_spec(v@, c) == None::<int>,
        },
{
    let mut i: usize = 0;
    while i < v.len()
        invariant
            i <= v@.len(),
            forall|j: int| 0 <= j < i ==> v@[j] != c,
        decreases v.len() - i,
    {
        if v[i] == c {
            proof {
                lemma_find_char_at(v@, c, i as int);
            }
            return Some(i);
        }
        i = i + 1;
    }
    proof {
        lemma_find_char_none(v@, c);
    }
    None
}

/// The separator occurs somewhere in `s`.
pub open spec fn contains_sub(s: Seq<char>, sep: Seq<char>) -> bool {
    exists|i: int| match_at(s, sep, i)
}

pub fn contains_sub_exec(v: &Vec<char>, sep: &Vec<char>) -> (r: bool)
    requires
        sep@.len() >= 1,
    ensures
        r == contains_sub(v@, sep@),
{
    let n: usize = v.len();
    let m: usize = sep.len();
    if m > n {
        proof {
            assert(forall|i: int| !match_at(v@, sep@, i));
        }
        return false;
    }
    let mut i: usize = 0;
    while i <= n - m
        invariant
            m <= n,
            n == v@.len(),
            m == sep@.len(),
            i <= n - m + 1,
            1 <= m,
            forall|j: int| 0 <= j < i ==> !match_at(v@, sep@, j),
        decreases n - i,
    {
        if match_at_exec(v, sep, i) {
            return true;
        }
        i = i + 1;
    }
    proof {
        assert(forall|j: int| i <= j ==> !match_at(v@, sep@, j));
    }
    false
}

} // verus!


