//! The version that an image reference tells of.

use vstd::prelude::*;
use vstd::string::*;
use crate::text::{
    after_first, after_last, after_last_char, all_digits, before, before_first, chars_of,
    first_index, halves, is_digit, law_stripping_undoes_adding, lemma_after_last,
    lemma_first_index, lemma_halves, lower, pieces, split_once, str_opt, strip_prefix,
    stripped_prefix, text_opt,
};

verus! {

/// The tag of an image reference: in the last path component, before any
/// digest, what follows the first colon.
pub open spec fn tag_of(image: Seq<char>) -> Option<Seq<char>> {
    match halves(after_last(before_first(image, '@'), '/'), ':') {
        Some((_, tag)) => if tag.len() == 0 {
            None
        } else {
            Some(tag)
        },
        None => None,
    }
}

/// The tag portion of an image reference, e.g. `v1.2.3` from
/// `ghcr.io/org/app:v1.2.3@sha256:...`.  None if the reference has no tag.
pub fn image_tag<'a>(image: &'a str) -> (r: Option<&'a str>)
    ensures
        str_opt(r) == tag_of(image@),
{
    let without_digest: &'a str = before(image, '@');
    // registries may carry a port (`localhost:5000/app`), so only look at
    // the last path component for the tag separator
    let name: &'a str = after_last_char(without_digest, '/');
    match split_once(name, ':') {
        Some((_, tag)) => if tag.is_empty() {
            None
        } else {
            Some(tag)
        },
        None => None,
    }
}

/// What is left of an image reference without its digest and its directories.
proof fn lemma_reference(dir: Seq<char>, name: Seq<char>, digest: Seq<char>)
    requires
        !dir.contains('@'),
        !name.contains('@'),
        !name.contains('/'),
        dir.len() == 0 || dir.last() == '/',
        digest.len() == 0 || digest[0] == '@',
    ensures
        after_last(before_first(dir + name + digest, '@'), '/') == name,
{
    let image = dir + name + digest;
    let reference = dir + name;
    assert forall|i: int| 0 <= i < reference.len() implies reference[i] != '@' by {
        if i < dir.len() {
            assert(dir.contains(dir[i]));
        } else {
            assert(name.contains(name[i - dir.len()]));
        }
    }
    assert(!reference.contains('@'));
    if digest.len() == 0 {
        assert(image =~= reference);
        lemma_halves(reference, '@', digest);
    } else {
        lemma_halves(reference, '@', digest.drop_first());
        assert(image =~= reference + seq!['@'] + digest.drop_first());
    }
    if dir.len() == 0 {
        assert(reference =~= name);
        lemma_after_last(dir, '/', name);
    } else {
        lemma_after_last(dir.drop_last(), '/', name);
        assert(reference =~= dir.drop_last() + seq!['/'] + name);
    }
}

/// The tag of a reference stands behind the colon of its last path component,
/// before the digest.  The port of a registry is no tag.
pub proof fn law_tags_stand_behind_the_name(
    dir: Seq<char>,
    name: Seq<char>,
    tag: Seq<char>,
    digest: Seq<char>,
)
    requires
        !dir.contains('@'),
        dir.len() == 0 || dir.last() == '/',
        !name.contains('@'),
        !name.contains('/'),
        !name.contains(':'),
        tag.len() > 0,
        !tag.contains('@'),
        !tag.contains('/'),
        digest.len() == 0 || digest[0] == '@',
    ensures
        tag_of(dir + (name + seq![':'] + tag) + digest) == Some(tag),
        tag_of(dir + name + digest) is None,
        tag_of(dir + (name + seq![':']) + digest) is None,
{
    let tagged = name + seq![':'] + tag;
    let nothing = Seq::<char>::empty();
    let empty = name + seq![':'] + nothing;
    assert forall|i: int| 0 <= i < tagged.len() implies tagged[i] != '@' && tagged[i] != '/' by {
        if i < name.len() {
            assert(name.contains(name[i]));
        } else if i > name.len() {
            assert(tag.contains(tag[i - name.len() - 1]));
        }
    }
    assert forall|i: int| 0 <= i < empty.len() implies empty[i] != '@' && empty[i] != '/' by {
        if i < name.len() {
            assert(name.contains(name[i]));
        }
    }
    lemma_reference(dir, tagged, digest);
    lemma_reference(dir, name, digest);
    lemma_reference(dir, empty, digest);
    lemma_halves(name, ':', tag);
    lemma_halves(name, ':', nothing);
    assert(empty =~= name + seq![':']);
}

/// An ASCII letter, digit, dot or hyphen.
pub open spec fn suffix_char(c: char) -> bool {
    is_digit(c) || ('a' <= c && c <= 'z') || ('A' <= c && c <= 'Z') || c == '.' || c == '-'
}

/// Whether `s` begins with `word`, be it in upper or lower case.
pub open spec fn begins_with_word(s: Seq<char>, word: Seq<char>) -> bool {
    word.is_prefix_of(s.map_values(|c: char| lower(c)))
}

/// Two or more numbers with dots between them.
pub open spec fn dotted_number(s: Seq<char>) -> bool {
    let parts = pieces(s, '.');
    parts.len() >= 2 && forall|i: int| 0 <= i < parts.len() ==> all_digits(#[trigger] parts[i])
}

/// Whether `s` begins with a digit or one of the words that are customary for
/// prereleases.
pub open spec fn begins_prerelease(s: Seq<char>) -> bool {
    ||| s.len() > 0 && is_digit(s[0])
    ||| begins_with_word(s, "rc"@)
    ||| begins_with_word(s, "alpha"@)
    ||| begins_with_word(s, "beta"@)
    ||| begins_with_word(s, "pre"@)
    ||| begins_with_word(s, "dev"@)
    ||| begins_with_word(s, "snapshot"@)
    ||| begins_with_word(s, "nightly"@)
    ||| begins_with_word(s, "canary"@)
    ||| begins_with_word(s, "build"@)
}

/// A suffix that marks a prerelease: a hyphen, then a digit or one of the
/// customary words, then letters, digits, dots and hyphens.
pub open spec fn prerelease(s: Seq<char>) -> bool {
    &&& s.len() >= 2
    &&& s[0] == '-'
    &&& forall|i: int| 0 <= i < s.len() ==> suffix_char(#[trigger] s[i])
    &&& begins_prerelease(s.drop_first())
}

/// A dotted number that may have a `v` before it.
pub open spec fn release(s: Seq<char>) -> bool {
    dotted_number(s) || (s.len() > 0 && s[0] == 'v' && dotted_number(s.drop_first()))
}

/// A release, alone or with a prerelease suffix behind its first `n`
/// characters.
pub open spec fn version_shaped(s: Seq<char>) -> bool {
    release(s) || exists|n: int|
        0 <= n <= s.len() && release(#[trigger] s.take(n)) && prerelease(s.skip(n))
}

/// Whether the part of `tag` from index `from` up to index `to` is preceded by
/// the start of the tag or a separator, and followed by the end or a separator.
pub open spec fn set_apart(tag: Seq<char>, from: int, to: int) -> bool {
    &&& 0 <= from <= to <= tag.len()
    &&& from == 0 || tag[from - 1] == '-' || tag[from - 1] == '_' || tag[from - 1] == '+'
    &&& to == tag.len() || tag[to] == '-' || tag[to] == '_' || tag[to] == '+' || tag[to] == '.'
}

/// Whether a version stands in `tag`, set apart, from index `from` up to index
/// `to`.
pub open spec fn version_at(tag: Seq<char>, from: int, to: int) -> bool {
    set_apart(tag, from, to) && version_shaped(tag.subrange(from, to))
}

/// Whether a version stands from `from` to `to`, none stands further left, and
/// none that starts there is longer.
pub open spec fn first_version_at(tag: Seq<char>, from: int, to: int) -> bool {
    &&& version_at(tag, from, to)
    &&& forall|f: int, t: int| #[trigger]
        version_at(tag, f, t) ==> from < f || (from == f && t <= to)
}

/// Whether `found` is the first version in `tag`, or nothing where there is
/// none.
pub open spec fn version_found(tag: Seq<char>, found: Option<Seq<char>>) -> bool {
    match found {
        Some(v) => exists|from: int, to: int|
            #![trigger first_version_at(tag, from, to)]
            first_version_at(tag, from, to) && v == tag.subrange(from, to),
        None => forall|from: int, to: int| !#[trigger] version_at(tag, from, to),
    }
}

/// Whether a text holds ASCII characters only.
pub open spec fn is_ascii_text(s: Seq<char>) -> bool {
    forall|i: int| 0 <= i < s.len() ==> (#[trigger] s[i] as u32) < 0x80
}

/// One or more characters, of which those in ASCII are digits.
pub open spec fn digit_group(s: Seq<char>) -> bool {
    s.len() > 0 && forall|i: int|
        0 <= i < s.len() ==> is_digit(#[trigger] s[i]) || s[i] as u32 >= 0x80
}

/// Two or more digit groups with dots between them.
pub open spec fn dotted_groups(s: Seq<char>) -> bool {
    let parts = pieces(s, '.');
    parts.len() >= 2 && forall|i: int| 0 <= i < parts.len() ==> digit_group(#[trigger] parts[i])
}

/// Whether the first `n` characters of `s` are dotted digit groups, with or
/// without a `v` before them, and what follows, if anything, begins with a
/// hyphen.
pub open spec fn begins_as_version(s: Seq<char>, n: int) -> bool {
    &&& 0 <= n <= s.len()
    &&& dotted_groups(s.take(n)) || (n > 0 && s[0] == 'v' && dotted_groups(s.subrange(1, n)))
    &&& n == s.len() || s[n] == '-'
}

/// Whether `v` is a part of `tag` that is set apart and begins as a version
/// does.
pub open spec fn version_part(tag: Seq<char>, v: Seq<char>) -> bool {
    &&& exists|from: int, to: int| #[trigger]
        set_apart(tag, from, to) && v == tag.subrange(from, to)
    &&& exists|n: int| #[trigger] begins_as_version(v, n)
}

/// The pattern of a version-shaped token in a tag.
pub const VERSION_PATTERN: &'static str = r"(?x)
    (?:^|[-_+])                 # preceded by the start of the tag or a separator
    (
        v?\d+(?:\.\d+)+          # N.N(.N)*; at least two segments, optional leading v
        (?:                     # optional prerelease suffix: -rc.1, -beta, -20240101
            -(?:\d|(?i:rc|alpha|beta|pre|dev|snapshot|nightly|canary|build))
            [A-Za-z0-9.-]*
        )?
    )
    (?:$|[-_+.])                # followed by the end of the tag or a separator
    ";

/// What the `regex` crate captures in a text as the first group of a pattern.
pub uninterp spec fn first_group(pattern: Seq<char>, text: Seq<char>) -> Option<Seq<char>>;

/// `regex::Regex::captures` with `VERSION_PATTERN`: the text of the first
/// group.  In a tag of ASCII characters that is the leftmost version of those
/// that the pattern describes, at its longest, and nothing is captured only
/// where there is none.  (The parts of the pattern are greedy, and only the
/// dots of the number and the suffix leave a choice.)  In any tag it is a part
/// that is set apart and begins with dotted digit groups.  Which characters
/// outside ASCII are digits, and so what a tag with such characters gives
/// beyond that, is left to the name.
#[verifier::external_body]
fn regex_first_group(pattern: &str, text: &str) -> (r: Option<String>)
    requires
        pattern@ == VERSION_PATTERN@,
    ensures
        text_opt(r) == first_group(pattern@, text@),
        is_ascii_text(text@) ==> version_found(text@, text_opt(r)),
        text_opt(r) matches Some(v) ==> version_part(text@, v),
{
    regex::Regex::new(pattern).unwrap().captures(text).map(|c| c[1].to_string())
}

/// The version in the tag of an image reference.
pub open spec fn image_version(image: Seq<char>) -> Option<Seq<char>> {
    match tag_of(image) {
        Some(tag) => first_group(VERSION_PATTERN@, tag),
        None => None,
    }
}

/// Find a version-shaped token in an image reference's tag.  Requires at least
/// `N.N` (a lone `16` is too ambiguous); a leading `v` is kept if present.  A
/// `-suffix` is kept only if it looks like a prerelease, so `1.25.3-alpine`
/// yields `1.25.3` while `v1.2.3-rc.1` is kept whole.
pub fn extract_version(image: &str) -> (r: Option<String>)
    ensures
        text_opt(r) == image_version(image@),
        match tag_of(image@) {
            Some(tag) => {
                &&& is_ascii_text(tag) ==> version_found(tag, text_opt(r))
                &&& text_opt(r) matches Some(v) ==> version_part(tag, v)
            },
            None => r is None,
        },
{
    match image_tag(image) {
        Some(tag) => regex_first_group(VERSION_PATTERN, tag),
        None => None,
    }
}

/// The tag alone decides which version an image reference tells of: references
/// with the same tag tell of the same version, and one without a tag of none.
pub proof fn law_tag_decides_the_version(a: Seq<char>, b: Seq<char>)
    ensures
        tag_of(a) == tag_of(b) ==> image_version(a) == image_version(b),
        tag_of(a) is None ==> image_version(a) is None,
{
}

/// The version that is found is a part of the tag, preceded by the start or a
/// separator and followed by the end or a separator.  It is a release, two or
/// more numbers with dots between them and perhaps a `v` before them, alone or
/// with a prerelease suffix.
pub proof fn law_version_is_a_part_of_the_tag(tag: Seq<char>, v: Seq<char>)
    requires
        version_found(tag, Some(v)),
    ensures
        version_shaped(v),
        version_part(tag, v),
{
    let (from, to) = choose|from: int, to: int|
        #![trigger first_version_at(tag, from, to)]
        first_version_at(tag, from, to) && v == tag.subrange(from, to);
    assert(set_apart(tag, from, to));
    let n = if release(v) {
        v.len() as int
    } else {
        choose|n: int| 0 <= n <= v.len() && release(#[trigger] v.take(n)) && prerelease(v.skip(n))
    };
    assert(v.take(v.len() as int) =~= v);
    let t = v.take(n);
    assert(n < v.len() ==> v.skip(n)[0] == v[n]);
    if dotted_number(t) {
        lemma_numbers_are_groups(t);
    } else {
        lemma_numbers_are_groups(t.drop_first());
        assert(t.drop_first() =~= v.subrange(1, n));
    }
    assert(begins_as_version(v, n));
}

/// Dotted numbers are dotted digit groups.
proof fn lemma_numbers_are_groups(s: Seq<char>)
    requires
        dotted_number(s),
    ensures
        dotted_groups(s),
{
    let parts = pieces(s, '.');
    assert forall|i: int| 0 <= i < parts.len() implies digit_group(#[trigger] parts[i]) by {
        assert(all_digits(parts[i]));
    }
}

/// What the pieces between the dots consist of, the whole consists of, dots
/// aside.
proof fn lemma_dotted_digits(s: Seq<char>, i: int)
    requires
        forall|k: int| 0 <= k < pieces(s, '.').len() ==> all_digits(#[trigger] pieces(s, '.')[k]),
        0 <= i < s.len(),
    ensures
        is_digit(s[i]) || s[i] == '.',
    decreases s.len(),
{
    lemma_first_index(s, '.');
    let parts = pieces(s, '.');
    if s.contains('.') {
        let n = first_index(s, '.');
        let rest = after_first(s, '.');
        assert(parts[0] == before_first(s, '.'));
        assert(all_digits(parts[0]));
        if i < n {
            assert(is_digit(parts[0][i]));
        } else if i > n {
            assert forall|k: int| 0 <= k < pieces(rest, '.').len() implies all_digits(
                #[trigger] pieces(rest, '.')[k],
            ) by {
                assert(parts[k + 1] == pieces(rest, '.')[k]);
            }
            lemma_dotted_digits(rest, i - n - 1);
            assert(rest[i - n - 1] == s[i]);
        }
    } else {
        assert(all_digits(parts[0]));
        assert(is_digit(parts[0][i]));
    }
}

/// A release holds a dot, and no hyphen.
proof fn lemma_release(s: Seq<char>)
    requires
        release(s),
    ensures
        s.contains('.'),
        !s.contains('-'),
{
    let t = if dotted_number(s) {
        s
    } else {
        s.drop_first()
    };
    let d = s.len() - t.len();
    assert forall|i: int| 0 <= i < s.len() implies s[i] != '-' by {
        if d <= i {
            lemma_dotted_digits(t, i - d);
            assert(t[i - d] == s[i]);
        }
    }
    assert(t.contains('.'));
    let k = choose|k: int| 0 <= k < t.len() && t[k] == '.';
    assert(s[k + d] == '.');
}

/// A lone number is no version: every version holds a dot.
pub proof fn law_versions_have_two_segments(tag: Seq<char>, found: Option<Seq<char>>)
    requires
        version_found(tag, found),
        !tag.contains('.'),
    ensures
        found is None,
{
    if let Some(v) = found {
        let (from, to) = choose|from: int, to: int|
            #![trigger first_version_at(tag, from, to)]
            first_version_at(tag, from, to) && v == tag.subrange(from, to);
        let n = if release(v) {
            v.len() as int
        } else {
            choose|n: int| 0 <= n <= v.len() && release(#[trigger] v.take(n)) && prerelease(v.skip(n))
        };
        assert(v.take(v.len() as int) =~= v);
        lemma_release(v.take(n));
        let k = choose|k: int| 0 <= k < v.take(n).len() && v.take(n)[k] == '.';
        assert(tag[from + k] == '.');
    }
}

/// A tag that is itself a version, with or without a leading `v` and a
/// prerelease suffix, is kept whole.
pub proof fn law_version_tag_is_kept_whole(tag: Seq<char>, found: Option<Seq<char>>)
    requires
        version_shaped(tag),
        version_found(tag, found),
    ensures
        found == Some(tag),
{
    assert(tag.subrange(0, tag.len() as int) =~= tag);
    assert(version_at(tag, 0, tag.len() as int));
    if let Some(v) = found {
        let (from, to) = choose|from: int, to: int|
            #![trigger first_version_at(tag, from, to)]
            first_version_at(tag, from, to) && v == tag.subrange(from, to);
        assert(from == 0 && to == tag.len());
    }
}

/// A suffix that does not look like a prerelease is dropped.
pub proof fn law_other_suffix_is_dropped(
    version: Seq<char>,
    suffix: Seq<char>,
    found: Option<Seq<char>>,
)
    requires
        release(version),
        !begins_prerelease(suffix),
        version_found(version + seq!['-'] + suffix, found),
    ensures
        found == Some(version),
{
    let tag = version + seq!['-'] + suffix;
    let n = version.len() as int;
    assert(tag.subrange(0, n) =~= version);
    assert(version_at(tag, 0, n));
    lemma_release(version);
    if let Some(v) = found {
        let (from, to) = choose|from: int, to: int|
            #![trigger first_version_at(tag, from, to)]
            first_version_at(tag, from, to) && v == tag.subrange(from, to);
        assert(from == 0 && n <= to);
        if n < to {
            assert(v[n] == '-');
            assert(v.contains('-'));
            if release(v) {
                lemma_release(v);
            } else {
                let m = choose|m: int|
                    0 <= m <= v.len() && release(#[trigger] v.take(m)) && prerelease(v.skip(m));
                lemma_release(v.take(m));
                if n < m {
                    assert(v.take(m)[n] == '-');
                } else if m < n {
                    assert(v.skip(m)[0] == version[m]);
                }
                let t = v.skip(n).drop_first();
                assert(t =~= suffix.take(t.len() as int));
                let words = seq![
                    "rc"@,
                    "alpha"@,
                    "beta"@,
                    "pre"@,
                    "dev"@,
                    "snapshot"@,
                    "nightly"@,
                    "canary"@,
                    "build"@,
                ];
                assert forall|w: int| 0 <= w < words.len() && begins_with_word(
                    t,
                    #[trigger] words[w],
                ) implies begins_with_word(suffix, words[w]) by {
                    let word = words[w];
                    let low = |c: char| lower(c);
                    assert(suffix.map_values(low).subrange(0, word.len() as int) =~= t.map_values(
                        low,
                    ).subrange(0, word.len() as int));
                }
                assert(words[0] == "rc"@ && words[1] == "alpha"@ && words[2] == "beta"@ && words[3]
                    == "pre"@ && words[4] == "dev"@ && words[5] == "snapshot"@ && words[6]
                    == "nightly"@ && words[7] == "canary"@ && words[8] == "build"@);
                assert(begins_prerelease(suffix));
            }
        }
    }
}

/// The hexadecimal digits of an image id, at most twelve of them.
pub open spec fn short_id(id: Seq<char>) -> Seq<char> {
    let hex = match stripped_prefix(id, "sha256:"@) {
        Some(hex) => hex,
        None => id,
    };
    if hex.len() <= 12 {
        hex
    } else {
        hex.take(12)
    }
}

/// `sha256:102dbfdde2da60d2...` -> `102dbfdde2da`
pub fn short_image_id(id: &str) -> (r: String)
    ensures
        r@ == short_id(id@),
{
    let hex: &str = match strip_prefix(id, "sha256:") {
        Some(hex) => hex,
        None => id,
    };
    let n: usize = chars_of(hex).len();
    if n <= 12 {
        hex.to_owned()
    } else {
        hex.substring_char(0, 12).to_owned()
    }
}

/// A short id is the beginning of the hexadecimal digits: all of them, or the
/// first twelve.
pub proof fn law_short_ids_are_twelve_digits(hex: Seq<char>)
    ensures
        hex.len() <= 12 ==> short_id("sha256:"@ + hex) == hex,
        hex.len() >= 12 ==> short_id("sha256:"@ + hex) == hex.subrange(0, 12),
        !"sha256:"@.is_prefix_of(hex) ==> short_id(hex) == short_id("sha256:"@ + hex),
{
    law_stripping_undoes_adding("sha256:"@, hex);
    if hex.len() >= 12 {
        assert(hex.take(12) =~= hex.subrange(0, 12));
        if hex.len() == 12 {
            assert(hex.subrange(0, 12) =~= hex);
        }
    }
}

} // verus!
