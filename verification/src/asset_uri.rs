//! The URIs under which the web assets of an installed app are asked for:
//! a scheme, `://`, the id of the app, and the path of the asset below it.

use crate::text::str_starts_with;
use vstd::prelude::*;
use vstd::string::StrSliceExecFns;
use vstd::string::StringExecFns;

verus! {

/// The text between scheme and location.
pub open spec fn spec_separator() -> Seq<char> {
    seq![':', '/', '/']
}

/// Whether `pattern` stands in `text` at `at`.
pub open spec fn spec_stands_at(text: Seq<char>, pattern: Seq<char>, at: int) -> bool {
    0 <= at && at + pattern.len() <= text.len() && text.subrange(at, at + pattern.len())
        == pattern
}

/// The first index from `from` on at which `pattern` stands in `text`; the
/// length of `text` when it stands nowhere from there on.
pub open spec fn spec_find(text: Seq<char>, pattern: Seq<char>, from: int) -> int
    decreases text.len() - from,
{
    if from < 0 || from >= text.len() || from + pattern.len() > text.len() {
        text.len() as int
    } else if spec_stands_at(text, pattern, from) {
        from
    } else {
        spec_find(text, pattern, from + 1)
    }
}

/// The parts of `text` between the occurrences of `c`: one part more than
/// there are occurrences.
pub open spec fn spec_split(text: Seq<char>, c: char) -> Seq<Seq<char>>
    decreases text.len(),
{
    if text.len() == 0 {
        seq![Seq::empty()]
    } else {
        let parts = spec_split(text.drop_last(), c);
        if text.last() == c {
            parts.push(Seq::empty())
        } else {
            parts.drop_last().push(parts.last().push(text.last()))
        }
    }
}

/// The first index in `from..to` at which `c` stands in `text`; `to` when it
/// stands nowhere in that range.
pub open spec fn spec_find_char(text: Seq<char>, c: char, from: int, to: int) -> int
    decreases to - from,
{
    if from >= to {
        to
    } else if text[from] == c {
        from
    } else {
        spec_find_char(text, c, from + 1, to)
    }
}

/// The location that a URI names: what stands between the first `://` and
/// the next one, or the end, up to the first `?` there. `None` where the URI
/// has no `://`.
pub open spec fn spec_location(uri: Seq<char>) -> Option<Seq<char>> {
    let first = spec_find(uri, spec_separator(), 0);
    if first >= uri.len() {
        None
    } else {
        let start = first + 3;
        let end = spec_find(uri, spec_separator(), start);
        Some(uri.subrange(start, spec_find_char(uri, '?', start, end)))
    }
}

/// What an `AssetRequest` stands for.
pub struct AssetRequestView {
    pub app_id: Seq<char>,
    pub path: Seq<Seq<char>>,
}

/// The asset that a URI asks for.
#[derive(Debug, PartialEq, Eq)]
pub struct AssetRequest {
    /// The id of the app, as the URI writes it.
    pub app_id: String,
    /// The components of the asset's path below the app.
    pub path: Vec<String>,
}

impl View for AssetRequest {
    type V = AssetRequestView;

    open spec fn view(&self) -> AssetRequestView {
        AssetRequestView { app_id: self.app_id@, path: self.path.deep_view() }
    }
}

impl DeepView for AssetRequest {
    type V = AssetRequestView;

    open spec fn deep_view(&self) -> AssetRequestView {
        self@
    }
}

/// The asset that a URI asks for: the first component of its location is the
/// app, the others are the path. `None` where the URI has no `://`.
pub open spec fn spec_asset_request(uri: Seq<char>) -> Option<AssetRequestView> {
    match spec_location(uri) {
        Some(location) => {
            let components = spec_split(location, '/');
            Some(
                AssetRequestView {
                    app_id: components[0],
                    path: components.subrange(1, components.len() as int),
                },
            )
        },
        None => None,
    }
}

/// `spec_find` gives an index from `from` on at which the pattern stands, or
/// the length of the text.
pub proof fn lemma_find(text: Seq<char>, pattern: Seq<char>, from: int)
    requires
        0 <= from,
    ensures
        spec_find(text, pattern, from) <= text.len(),
        spec_find(text, pattern, from) < text.len() ==> from <= spec_find(text, pattern, from)
            && spec_stands_at(text, pattern, spec_find(text, pattern, from)),
        forall|j: int|
            from <= j < spec_find(text, pattern, from) ==> !spec_stands_at(text, pattern, j),
    decreases text.len() - from,
{
    if from >= text.len() || from + pattern.len() > text.len() {
        assert forall|j: int| from <= j < text.len() implies !spec_stands_at(
            text,
            pattern,
            j,
        ) by {}
    } else if spec_stands_at(text, pattern, from) {
    } else {
        lemma_find(text, pattern, from + 1);
    }
}

/// There is at least one part.
pub proof fn lemma_split_len(text: Seq<char>, c: char)
    ensures
        spec_split(text, c).len() >= 1,
    decreases text.len(),
{
    if text.len() > 0 {
        lemma_split_len(text.drop_last(), c);
    }
}

/// The characters of a string.
pub fn chars_of(text: &str) -> (chars: Vec<char>)
    ensures
        chars@ == text@,
{
    let n = text.unicode_len();
    let mut chars: Vec<char> = Vec::with_capacity(n);
    let mut i: usize = 0;
    while i < n
        invariant
            i <= n,
            n == text@.len(),
            chars@ == text@.subrange(0, i as int),
        decreases n - i,
    {
        chars.push(text.get_char(i));
        assert(chars@ =~= text@.subrange(0, i + 1));
        i = i + 1;
    }
    assert(text@.subrange(0, n as int) =~= text@);
    chars
}

/// Whether `pattern` stands in `text` at `at`.
pub fn stands_at(text: &Vec<char>, pattern: &Vec<char>, at: usize) -> (yes: bool)
    ensures
        yes == spec_stands_at(text@, pattern@, at as int),
{
    if at > text.len() || pattern.len() > text.len() - at {
        return false;
    }
    let mut k: usize = 0;
    while k < pattern.len()
        invariant
            k <= pattern.len(),
            at + pattern.len() <= text.len(),
            forall|j: int| 0 <= j < k ==> text@[at + j] == pattern@[j],
        decreases pattern.len() - k,
    {
        if text[at + k] != pattern[k] {
            assert(text@.subrange(at as int, at + pattern.len())[k as int] != pattern@[k as int]);
            return false;
        }
        k = k + 1;
    }
    assert(text@.subrange(at as int, at + pattern.len()) =~= pattern@);
    true
}

/// Finds the first place from `from` on at which `pattern` stands in `text`:
/// the index, or the length of `text`.
pub fn find(text: &Vec<char>, pattern: &Vec<char>, from: usize) -> (at: usize)
    ensures
        at == spec_find(text@, pattern@, from as int),
        at <= text.len(),
{
    proof {
        lemma_find(text@, pattern@, from as int);
    }
    let mut i: usize = from;
    while i < text.len() && pattern.len() <= text.len() - i
        invariant
            from <= i,
            spec_find(text@, pattern@, from as int) == spec_find(text@, pattern@, i as int),
        decreases text.len() - i,
    {
        if stands_at(text, pattern, i) {
            return i;
        }
        i = i + 1;
    }
    assert(spec_find(text@, pattern@, i as int) == text@.len());
    text.len()
}

/// Finds the first place in `from..to` at which `c` stands in `text`.
pub fn find_char(text: &Vec<char>, c: char, from: usize, to: usize) -> (at: usize)
    requires
        from <= to <= text.len(),
    ensures
        at == spec_find_char(text@, c, from as int, to as int),
        from <= at <= to,
{
    let mut i: usize = from;
    while i < to
        invariant
            from <= i <= to <= text.len(),
            spec_find_char(text@, c, from as int, to as int) == spec_find_char(
                text@,
                c,
                i as int,
                to as int,
            ),
        decreases to - i,
    {
        if text[i] == c {
            return i;
        }
        i = i + 1;
    }
    to
}

/// Splits the range `from..to` of `uri` at the occurrences of `c`. `chars`
/// holds the characters of `uri`.
pub fn split_range(uri: &str, chars: &Vec<char>, from: usize, to: usize, c: char) -> (parts: Vec<
    String,
>)
    requires
        chars@ == uri@,
        from <= to <= chars.len(),
    ensures
        parts.deep_view() == spec_split(uri@.subrange(from as int, to as int), c),
{
    let mut parts: Vec<String> = Vec::new();
    let mut begin: usize = from;
    let mut i: usize = from;
    proof {
        assert(uri@.subrange(from as int, from as int) =~= Seq::<char>::empty());
        assert(parts.deep_view().push(Seq::<char>::empty()) =~= seq![Seq::<char>::empty()]);
    }
    while i < to
        invariant
            from <= begin <= i <= to <= chars.len(),
            chars@ == uri@,
            spec_split(uri@.subrange(from as int, i as int), c) == parts.deep_view().push(
                uri@.subrange(begin as int, i as int),
            ),
        decreases to - i,
    {
        let ghost before = uri@.subrange(from as int, i as int);
        let ghost now = uri@.subrange(from as int, i + 1);
        let ghost done = parts.deep_view();
        proof {
            assert(now.drop_last() =~= before);
            assert(now.last() == chars@[i as int]);
        }
        if chars[i] == c {
            let part = String::from_str(uri.substring_char(begin, i));
            parts.push(part);
            proof {
                assert(parts.deep_view() =~= done.push(uri@.subrange(begin as int, i as int)));
                assert(uri@.subrange(i + 1, i + 1) =~= Seq::<char>::empty());
            }
            begin = i + 1;
        } else {
            proof {
                let grown = done.push(uri@.subrange(begin as int, i as int));
                assert(grown.drop_last() =~= done);
                assert(uri@.subrange(begin as int, i as int).push(chars@[i as int])
                    =~= uri@.subrange(begin as int, i + 1));
            }
        }
        i = i + 1;
    }
    let ghost done = parts.deep_view();
    let last = String::from_str(uri.substring_char(begin, to));
    parts.push(last);
    assert(parts.deep_view() =~= done.push(uri@.subrange(begin as int, to as int)));
    parts
}

/// Whether a URI is the ping that a window sends to find out whether the
/// assets are served.
pub fn is_ping(uri: &str) -> (yes: bool)
    ensures
        yes == "happ://ping"@.is_prefix_of(uri@),
{
    str_starts_with(uri, "happ://ping")
}

/// Reads the asset that a URI asks for. `None` where the URI has no `://`.
pub fn parse_asset_uri(uri: &str) -> (request: Option<AssetRequest>)
    ensures
        request.deep_view() == spec_asset_request(uri@),
{
    let chars = chars_of(uri);
    let mut separator: Vec<char> = Vec::new();
    separator.push(':');
    separator.push('/');
    separator.push('/');
    assert(separator@ =~= spec_separator());
    let first = find(&chars, &separator, 0);
    if first >= chars.len() {
        return None;
    }
    proof {
        lemma_find(uri@, spec_separator(), 0);
        lemma_find(uri@, spec_separator(), first + 3);
    }
    let start = first + 3;
    let end = find(&chars, &separator, start);
    let stop = find_char(&chars, '?', start, end);
    let mut components = split_range(uri, &chars, start, stop, '/');
    proof {
        lemma_split_len(uri@.subrange(start as int, stop as int), '/');
    }
    let ghost all = components.deep_view();
    let app_id = components.remove(0);
    assert(components.deep_view() =~= all.subrange(1, all.len() as int));
    Some(AssetRequest { app_id, path: components })
}

} // verus!
