//! Character-level text helpers: whitespace, trimming, splitting and
//! searching, each stated over the `Seq<char>` view of a string.
use vstd::prelude::*;
use vstd::std_specs::iter::IteratorSpec;
use vstd::string::StrSliceExecFns;
use vstd::utf8::{decode_utf8, encode_utf8, is_char_boundary};

verus! {

broadcast use {vstd::string::group_string_axioms, vstd::utf8::encode_utf8_decode_utf8, vstd::utf8::encode_utf8_valid_utf8};

// ─── Whitespace ─────────────────────────────────────────────────────────────

/// The Unicode `White_Space` property, which decides `char::is_whitespace`
/// and therefore `str::trim` and `str::split_whitespace`.
pub open spec fn is_white_space(c: char) -> bool {
    let u = c as u32;
    ||| 0x09 <= u <= 0x0D
    ||| u == 0x20
    ||| u == 0x85
    ||| u == 0xA0
    ||| u == 0x1680
    ||| 0x2000 <= u <= 0x200A
    ||| u == 0x2028
    ||| u == 0x2029
    ||| u == 0x202F
    ||| u == 0x205F
    ||| u == 0x3000
}

/// Whether `c` is a whitespace character.
pub fn is_white_space_char(c: char) -> (b: bool)
    ensures
        b == is_white_space(c),
{
    let u = c as u32;
    (0x09 <= u && u <= 0x0D) || u == 0x20 || u == 0x85 || u == 0xA0 || u == 0x1680 || (0x2000
        <= u && u <= 0x200A) || u == 0x2028 || u == 0x2029 || u == 0x202F || u == 0x205F || u
        == 0x3000
}

/// `s` without its leading whitespace.
pub open spec fn trim_start(s: Seq<char>) -> Seq<char>
    decreases s.len(),
{
    if s.len() > 0 && is_white_space(s[0]) {
        trim_start(s.drop_first())
    } else {
        s
    }
}

/// `s` without its trailing whitespace.
pub open spec fn trim_end(s: Seq<char>) -> Seq<char>
    decreases s.len(),
{
    if s.len() > 0 && is_white_space(s.last()) {
        trim_end(s.drop_last())
    } else {
        s
    }
}

/// `s` without leading and trailing whitespace (`str::trim`).
pub open spec fn trimmed(s: Seq<char>) -> Seq<char> {
    trim_end(trim_start(s))
}

/// Whether `s` holds nothing but whitespace (`s.trim().is_empty()`).
pub open spec fn is_blank(s: Seq<char>) -> bool {
    trimmed(s).len() == 0
}

proof fn lemma_trim_start_skip(s: Seq<char>, a: int)
    requires
        0 <= a <= s.len(),
        forall|i: int| 0 <= i < a ==> is_white_space(#[trigger] s[i]),
        a < s.len() ==> !is_white_space(s[a]),
    ensures
        trim_start(s) == s.skip(a),
    decreases a,
{
    if a == 0 {
        assert(s.skip(0) =~= s);
    } else {
        let t = s.drop_first();
        assert forall|i: int| 0 <= i < a - 1 implies is_white_space(#[trigger] t[i]) by {
            assert(t[i] == s[i + 1]);
        }
        if a - 1 < t.len() {
            assert(t[a - 1] == s[a]);
        }
        lemma_trim_start_skip(t, a - 1);
        assert(t.skip(a - 1) =~= s.skip(a));
    }
}

proof fn lemma_trim_end_take(s: Seq<char>, b: int)
    requires
        0 <= b <= s.len(),
        forall|i: int| b <= i < s.len() ==> is_white_space(#[trigger] s[i]),
        b > 0 ==> !is_white_space(s[b - 1]),
    ensures
        trim_end(s) == s.take(b),
    decreases s.len() - b,
{
    if b == s.len() {
        assert(s.take(b) =~= s);
    } else {
        let t = s.drop_last();
        assert forall|i: int| b <= i < t.len() implies is_white_space(#[trigger] t[i]) by {
            assert(t[i] == s[i]);
        }
        if b > 0 {
            assert(t[b - 1] == s[b - 1]);
        }
        lemma_trim_end_take(t, b);
        assert(t.take(b) =~= s.take(b));
    }
}

/// A copy of `s` without leading and trailing whitespace.
pub fn trim(s: &str) -> (r: String)
    ensures
        r@ == trimmed(s@),
{
    let cs = chars_of(s);
    let n = cs.len();
    let mut a: usize = 0;
    while a < n && is_white_space_char(cs[a])
        invariant
            a <= n,
            n == cs@.len(),
            forall|i: int| 0 <= i < a ==> is_white_space(#[trigger] cs@[i]),
        decreases n - a,
    {
        a = a + 1;
    }
    let mut b: usize = n;
    while b > a && is_white_space_char(cs[b - 1])
        invariant
            a <= b <= n,
            n == cs@.len(),
            forall|i: int| b <= i < n ==> is_white_space(#[trigger] cs@[i]),
        decreases b,
    {
        b = b - 1;
    }
    proof {
        lemma_trim_start_skip(cs@, a as int);
        let t = cs@.skip(a as int);
        assert forall|i: int| (b - a) <= i < t.len() implies is_white_space(#[trigger] t[i]) by {
            assert(t[i] == cs@[i + a]);
        }
        if b > a {
            assert(t[b - a - 1] == cs@[b - 1]);
        }
        lemma_trim_end_take(t, (b - a) as int);
        assert(t.take((b - a) as int) =~= cs@.subrange(a as int, b as int));
    }
    s.substring_char(a, b).to_owned()
}

// ─── Conversions between strings and characters ────────────────────────────

/// The characters of `s`, in order.
pub fn chars_of(s: &str) -> (v: Vec<char>)
    ensures
        v@ == s@,
{
    let mut v: Vec<char> = Vec::new();
    for c in it: s.chars()
        invariant
            it.seq() == s@,
            v@ == it.seq().take(it.index()),
    {
        v.push(c);
    }
    v
}

/// `String::push`: appends the character `c` to the end of `s`.
#[verifier::external_body]
pub(crate) fn push_char(s: &mut String, c: char)
    ensures
        final(s)@ == old(s)@.push(c),
{
    s.push(c)
}

/// A string made of the characters `cs`, in order.
pub fn string_of(cs: &Vec<char>) -> (s: String)
    ensures
        s@ == cs@,
{
    let mut s = String::new();
    let n = cs.len();
    for i in 0..n
        invariant
            n == cs@.len(),
            s@ == cs@.take(i as int),
    {
        push_char(&mut s, cs[i]);
        assert(cs@.take(i + 1) =~= cs@.take(i as int).push(cs@[i as int]));
    }
    assert(cs@.take(n as int) =~= cs@);
    s
}

/// `s` with every `from` replaced by `to`.
pub open spec fn replace_char(s: Seq<char>, from: char, to: char) -> Seq<char> {
    s.map_values(|c: char| if c == from { to } else { c })
}

/// A copy of `s` with every `from` replaced by `to` (`str::replace` on one character).
pub fn replace_char_in(s: &str, from: char, to: char) -> (r: String)
    ensures
        r@ == replace_char(s@, from, to),
{
    let cs = chars_of(s);
    let mut out: Vec<char> = Vec::new();
    let n = cs.len();
    for i in 0..n
        invariant
            n == cs@.len(),
            out@ == replace_char(cs@.take(i as int), from, to),
    {
        let c = cs[i];
        out.push(if c == from { to } else { c });
        assert(replace_char(cs@.take(i + 1), from, to) =~= replace_char(
            cs@.take(i as int),
            from,
            to,
        ).push(if c == from { to } else { c }));
    }
    assert(cs@.take(n as int) =~= cs@);
    string_of(&out)
}

/// The views of a sequence of strings.
pub open spec fn string_views(v: Seq<String>) -> Seq<Seq<char>> {
    v.map_values(|s: String| s@)
}

/// Appends `s` to the list of strings `v`.
pub fn push_string(v: &mut Vec<String>, s: String)
    ensures
        string_views(final(v)@) == string_views(old(v)@).push(s@),
{
    let ghost before = v@;
    v.push(s);
    assert(string_views(v@) =~= string_views(before).push(s@));
}

// ─── Cutting to a byte length ──────────────────────────────────────────────

/// The UTF-8 length of `s`, in bytes.
pub open spec fn byte_len(s: Seq<char>) -> nat {
    encode_utf8(s).len()
}

/// `s` cut to its first `n` bytes when it is longer.
pub open spec fn cut_to_bytes(s: Seq<char>, n: nat) -> Seq<char> {
    if byte_len(s) > n {
        decode_utf8(encode_utf8(s).take(n as int))
    } else {
        s
    }
}

/// Whether cutting `s` to `n` bytes (when longer) falls between two characters.
pub open spec fn cuts_cleanly(s: Seq<char>, n: nat) -> bool {
    byte_len(s) > n ==> is_char_boundary(encode_utf8(s), n as int)
}

/// `s` cut to its first `n` bytes when it is longer.
pub fn cut_to<'a>(s: &'a str, n: usize) -> (r: &'a str)
    requires
        cuts_cleanly(s@, n as nat),
    ensures
        r@ == cut_to_bytes(s@, n as nat),
{
    if s.as_bytes().len() > n {
        let (head, _) = s.split_at(n);
        assert(encode_utf8(head@) == encode_utf8(s@).take(n as int));
        assert(decode_utf8(encode_utf8(head@)) == head@);
        head
    } else {
        s
    }
}

/// The UTF-8 encoding of two runs of characters is the encoding of the first
/// followed by that of the second.
pub proof fn lemma_encode_utf8_concat(a: Seq<char>, b: Seq<char>)
    ensures
        encode_utf8(a + b) == encode_utf8(a) + encode_utf8(b),
    decreases a.len(),
{
    if a.len() == 0 {
        assert(a + b =~= b);
        assert(encode_utf8(a) + encode_utf8(b) =~= encode_utf8(b));
    } else {
        assert((a + b).drop_first() =~= a.drop_first() + b);
        lemma_encode_utf8_concat(a.drop_first(), b);
        assert(encode_utf8(a + b) =~= encode_utf8(a) + encode_utf8(b));
    }
}

/// The bytes of the first `k + 1` characters are those of the first `k` and
/// those of character `k`.
proof fn lemma_byte_len_take_next(s: Seq<char>, k: int)
    requires
        0 <= k < s.len(),
    ensures
        byte_len(s.take(k + 1)) == byte_len(s.take(k)) + byte_len(seq![s[k]]),
{
    assert(s.take(k + 1) =~= s.take(k) + seq![s[k]]);
    lemma_encode_utf8_concat(s.take(k), seq![s[k]]);
}

/// A prefix never has more bytes than the whole.
pub proof fn lemma_byte_len_prefix(s: Seq<char>, k: int)
    requires
        0 <= k <= s.len(),
    ensures
        byte_len(s.take(k)) <= byte_len(s),
{
    assert(s =~= s.take(k) + s.skip(k));
    lemma_encode_utf8_concat(s.take(k), s.skip(k));
}

/// The number of bytes of the UTF-8 encoding of `c`.
pub fn utf8_width(c: char) -> (w: usize)
    ensures
        w == byte_len(seq![c]),
        1 <= w <= 4,
{
    proof {
        vstd::utf8::char_is_scalar(c);
        assert(seq![c].drop_first() =~= Seq::<char>::empty());
        assert(encode_utf8(Seq::<char>::empty()) =~= Seq::<u8>::empty());
        assert(encode_utf8(seq![c]) =~= vstd::utf8::encode_scalar(c as u32));
    }
    let u = c as u32;
    if u < 0x80 {
        1
    } else if u < 0x800 {
        2
    } else if u < 0x10000 {
        3
    } else {
        4
    }
}

/// The longest run of characters at the start of `s` whose UTF-8 encoding
/// takes at most `n` bytes: `s` itself when it fits, else the same of `s`
/// without its last character.
pub open spec fn longest_prefix_within(s: Seq<char>, n: nat) -> Seq<char>
    decreases s.len(),
{
    if byte_len(s) <= n || s.len() == 0 {
        s
    } else {
        longest_prefix_within(s.drop_last(), n)
    }
}

/// The first `m` characters of `s` are its longest prefix within `n` bytes
/// when they fit and one more character would not.
proof fn lemma_longest_prefix_is_take(s: Seq<char>, n: nat, m: int)
    requires
        0 <= m <= s.len(),
        byte_len(s.take(m)) <= n,
        m < s.len() ==> byte_len(s.take(m + 1)) > n,
    ensures
        longest_prefix_within(s, n) == s.take(m),
    decreases s.len(),
{
    if byte_len(s) <= n || s.len() == 0 {
        if m < s.len() {
            lemma_byte_len_prefix(s, m + 1);
        }
        assert(s.take(m) =~= s);
    } else {
        let t = s.drop_last();
        assert(m < s.len()) by {
            if m == s.len() {
                assert(s.take(m) =~= s);
            }
        }
        assert(t.take(m) =~= s.take(m));
        if m < t.len() {
            assert(t.take(m + 1) =~= s.take(m + 1));
        }
        lemma_longest_prefix_is_take(t, n, m);
    }
}

/// The longest run of characters at the start of `s` that takes at most `n`
/// bytes: `s` cut at the last character boundary at or below `n` bytes.
pub fn prefix_within_bytes(s: &str, n: usize) -> (r: String)
    ensures
        r@ == longest_prefix_within(s@, n as nat),
{
    let cs = chars_of(s);
    let len = cs.len();
    let mut m: usize = 0;
    let mut used: usize = 0;
    let mut full = false;
    assert(cs@.take(0) =~= Seq::<char>::empty());
    assert(encode_utf8(Seq::<char>::empty()) =~= Seq::<u8>::empty());
    while m < len && !full
        invariant
            len == cs@.len(),
            cs@ == s@,
            m <= len,
            used <= n,
            used == byte_len(cs@.take(m as int)),
            full ==> m < len && byte_len(cs@.take(m + 1)) > n,
        decreases len - m + (if full { 0int } else { 1int }),
    {
        let w = utf8_width(cs[m]);
        proof {
            lemma_byte_len_take_next(cs@, m as int);
        }
        if w > n - used {
            full = true;
        } else {
            used = used + w;
            m = m + 1;
        }
    }
    proof {
        lemma_longest_prefix_is_take(cs@, n as nat, m as int);
    }
    s.substring_char(0, m).to_owned()
}

// ─── Searching ──────────────────────────────────────────────────────────────

/// Whether `needle` occurs in `hay` as a contiguous run (`str::contains`).
pub open spec fn has_substring(hay: Seq<char>, needle: Seq<char>) -> bool {
    exists|i: int|
        0 <= i && i + needle.len() <= hay.len() && #[trigger] hay.subrange(i, i + needle.len())
            == needle
}

/// Whether `needle` starts at position `i` of `hay`.
fn occurs_at(hay: &Vec<char>, needle: &Vec<char>, i: usize) -> (b: bool)
    requires
        i + needle@.len() <= hay@.len(),
    ensures
        b == (hay@.subrange(i as int, i + needle@.len()) == needle@),
{
    let m = needle.len();
    let mut j: usize = 0;
    while j < m
        invariant
            j <= m,
            m == needle@.len(),
            i + m <= hay.len(),
            forall|k: int| 0 <= k < j ==> hay@[i + k] == needle@[k],
        decreases m - j,
    {
        if hay[i + j] != needle[j] {
            assert(hay@.subrange(i as int, i + m)[j as int] != needle@[j as int]);
            return false;
        }
        j = j + 1;
    }
    assert(hay@.subrange(i as int, i + m) =~= needle@);
    true
}

/// Whether `needle` occurs in `hay`.
pub fn contains_str(hay: &str, needle: &str) -> (b: bool)
    ensures
        b == has_substring(hay@, needle@),
{
    let h = chars_of(hay);
    let nd = chars_of(needle);
    if nd.len() > h.len() {
        return false;
    }
    let last = h.len() - nd.len();
    let mut i: usize = 0;
    while i < last
        invariant
            i <= last,
            last + nd@.len() == h@.len(),
            h@ == hay@,
            nd@ == needle@,
            forall|k: int| 0 <= k < i ==> #[trigger] h@.subrange(k, k + nd@.len()) != nd@,
        decreases last - i,
    {
        if occurs_at(&h, &nd, i) {
            return true;
        }
        i = i + 1;
    }
    if occurs_at(&h, &nd, last) {
        return true;
    }
    proof {
        assert forall|k: int|
            0 <= k && k + needle@.len() <= hay@.len() implies #[trigger] hay@.subrange(
            k,
            k + needle@.len(),
        ) != needle@ by {
            if k >= i {
                assert(k == last);
            }
        }
    }
    false
}

/// Whether the character `c` occurs in `s`.
pub fn contains_char(s: &str, c: char) -> (b: bool)
    ensures
        b == s@.contains(c),
{
    let cs = chars_of(s);
    let n = cs.len();
    for i in 0..n
        invariant
            n == cs@.len(),
            cs@ == s@,
            forall|k: int| 0 <= k < i ==> cs@[k] != c,
    {
        if cs[i] == c {
            return true;
        }
    }
    false
}

// ─── Stripping ──────────────────────────────────────────────────────────────

/// `s` with every trailing `c` removed (`str::trim_end_matches` on a character).
pub open spec fn strip_trailing(s: Seq<char>, c: char) -> Seq<char>
    decreases s.len(),
{
    if s.len() > 0 && s.last() == c {
        strip_trailing(s.drop_last(), c)
    } else {
        s
    }
}

proof fn lemma_strip_trailing_take(s: Seq<char>, c: char, b: int)
    requires
        0 <= b <= s.len(),
        forall|i: int| b <= i < s.len() ==> #[trigger] s[i] == c,
        b > 0 ==> s[b - 1] != c,
    ensures
        strip_trailing(s, c) == s.take(b),
    decreases s.len() - b,
{
    if b == s.len() {
        assert(s.take(b) =~= s);
    } else {
        let t = s.drop_last();
        assert forall|i: int| b <= i < t.len() implies #[trigger] t[i] == c by {
            assert(t[i] == s[i]);
        }
        if b > 0 {
            assert(t[b - 1] == s[b - 1]);
        }
        lemma_strip_trailing_take(t, c, b);
        assert(t.take(b) =~= s.take(b));
    }
}

/// The characters of `cs` without every trailing `c`.
pub fn strip_trailing_chars(cs: &Vec<char>, c: char) -> (r: Vec<char>)
    ensures
        r@ == strip_trailing(cs@, c),
{
    let mut b = cs.len();
    while b > 0 && cs[b - 1] == c
        invariant
            b <= cs@.len(),
            forall|i: int| b <= i < cs@.len() ==> #[trigger] cs@[i] == c,
        decreases b,
    {
        b = b - 1;
    }
    let mut r: Vec<char> = Vec::new();
    for i in 0..b
        invariant
            b <= cs@.len(),
            r@ == cs@.take(i as int),
    {
        r.push(cs[i]);
        assert(cs@.take(i + 1) =~= cs@.take(i as int).push(cs@[i as int]));
    }
    proof {
        lemma_strip_trailing_take(cs@, c, b as int);
    }
    r
}

/// `s` with the suffix `suf` removed as many times as it ends `s`
/// (`str::trim_end_matches` on a string pattern).
pub open spec fn strip_suffixes(s: Seq<char>, suf: Seq<char>) -> Seq<char>
    decreases s.len(),
{
    if suf.len() > 0 && suf.len() <= s.len() && s.skip(s.len() - suf.len()) == suf {
        strip_suffixes(s.take(s.len() - suf.len()), suf)
    } else {
        s
    }
}

/// A copy of `s` with the suffix `suf` removed as long as `s` ends with it.
pub fn strip_suffixes_of(s: &str, suf: &str) -> (r: String)
    ensures
        r@ == strip_suffixes(s@, suf@),
{
    let cs = chars_of(s);
    let sf = chars_of(suf);
    let m = sf.len();
    let mut b = cs.len();
    assert(cs@.take(b as int) =~= cs@);
    while m > 0 && m <= b && occurs_at(&cs, &sf, b - m)
        invariant
            b <= cs@.len(),
            m == sf@.len(),
            sf@ == suf@,
            strip_suffixes(cs@.take(b as int), sf@) == strip_suffixes(cs@, sf@),
        decreases b,
    {
        proof {
            let t = cs@.take(b as int);
            assert(t.skip(t.len() - m) =~= cs@.subrange(b - m, b as int));
            assert(t.take(t.len() - m) =~= cs@.take(b - m));
        }
        b = b - m;
    }
    proof {
        let t = cs@.take(b as int);
        if m > 0 && m <= b {
            assert(t.skip(t.len() - m) =~= cs@.subrange(b - m, b as int));
        }
        assert(cs@.take(cs@.len() as int) =~= cs@);
    }
    let mut r: Vec<char> = Vec::new();
    for i in 0..b
        invariant
            b <= cs@.len(),
            r@ == cs@.take(i as int),
    {
        r.push(cs[i]);
        assert(cs@.take(i + 1) =~= cs@.take(i as int).push(cs@[i as int]));
    }
    string_of(&r)
}

// ─── Splitting on whitespace ────────────────────────────────────────────────

/// The maximal runs of non-whitespace characters of `s`, in order
/// (`str::split_whitespace`).
pub open spec fn split_white_space(s: Seq<char>) -> Seq<Seq<char>>
    decreases s.len(),
{
    if s.len() == 0 {
        seq![]
    } else {
        let t = split_white_space(s.drop_last());
        let c = s.last();
        if is_white_space(c) {
            t
        } else if s.len() >= 2 && !is_white_space(s[s.len() - 2]) {
            t.drop_last().push(t.last().push(c))
        } else {
            t.push(seq![c])
        }
    }
}

/// The views of a sequence of character vectors.
pub open spec fn views_of(v: Seq<Vec<char>>) -> Seq<Seq<char>> {
    v.map_values(|w: Vec<char>| w@)
}

/// The words of `s`: its maximal runs of non-whitespace characters.
pub fn split_white_space_of(s: &str) -> (words: Vec<Vec<char>>)
    ensures
        views_of(words@) == split_white_space(s@),
{
    let cs = chars_of(s);
    let n = cs.len();
    let mut words: Vec<Vec<char>> = Vec::new();
    let mut cur: Vec<char> = Vec::new();
    for i in 0..n
        invariant
            n == cs@.len(),
            cs@ == s@,
            split_white_space(cs@.take(i as int)) == (if cur@.len() > 0 {
                views_of(words@).push(cur@)
            } else {
                views_of(words@)
            }),
            cur@.len() > 0 <==> (i > 0 && !is_white_space(cs@[i - 1])),
    {
        let c = cs[i];
        let ghost prev = cs@.take(i as int);
        let ghost next = cs@.take(i + 1);
        let ghost old_words = views_of(words@);
        let ghost old_cur = cur@;
        assert(next.drop_last() =~= prev);
        assert(next.last() == c);
        if is_white_space_char(c) {
            if cur.len() > 0 {
                words.push(cur);
                assert(views_of(words@) =~= old_words.push(old_cur));
                cur = Vec::new();
            }
        } else {
            if i > 0 {
                assert(next[next.len() - 2] == cs@[i - 1]);
            }
            cur.push(c);
            proof {
                if old_cur.len() > 0 {
                    assert(old_words.push(old_cur).drop_last() =~= old_words);
                    assert(old_words.push(old_cur).last() == old_cur);
                    assert(old_words.push(cur@) =~= old_words.push(old_cur).drop_last().push(
                        old_cur.push(c),
                    ));
                } else {
                    assert(cur@ =~= seq![c]);
                }
            }
        }
    }
    let ghost last_words = views_of(words@);
    if cur.len() > 0 {
        let ghost last_cur = cur@;
        words.push(cur);
        assert(views_of(words@) =~= last_words.push(last_cur));
    }
    assert(cs@.take(n as int) =~= cs@);
    words
}

} // verus!
