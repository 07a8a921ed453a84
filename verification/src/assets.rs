//! Asset sources: which source serves a URL, which icon a URL asks for, how
//! bundled icon files are named, which size of an icon is chosen, and which
//! window control image a URL names.
use crate::utf::{str_chars, str_eq, string_from_chars, utf8_width};
use vstd::prelude::*;

verus! {

/// The parts of a parsed URL that the asset sources read.
pub struct UrlParts {
    pub scheme: String,
    pub host: Option<String>,
    pub path: String,
    pub query_pairs: Vec<(String, String)>,
}

/// The parts of a parsed URL, as text.
pub struct UrlPartsView {
    pub scheme: Seq<char>,
    pub host: Option<Seq<char>>,
    pub path: Seq<char>,
    pub query_pairs: Seq<(Seq<char>, Seq<char>)>,
}

pub open spec fn pair_views(pairs: Seq<(String, String)>) -> Seq<(Seq<char>, Seq<char>)> {
    pairs.map_values(|p: (String, String)| (p.0@, p.1@))
}

impl View for UrlParts {
    type V = UrlPartsView;

    open spec fn view(&self) -> UrlPartsView {
        UrlPartsView {
            scheme: self.scheme@,
            host: match self.host {
                Some(h) => Some(h@),
                None => None,
            },
            path: self.path@,
            query_pairs: pair_views(self.query_pairs@),
        }
    }
}

/// What `url::Url::parse` makes of a text: its scheme, host, path and the
/// decoded query pairs, or nothing where the text is no URL.
pub uninterp spec fn parsed_url(input: Seq<char>) -> Option<UrlPartsView>;

/// Calls `url::Url::parse` and reads off the scheme (`Url::scheme`), the host
/// (`Url::host_str`), the path (`Url::path`) and the query pairs
/// (`Url::query_pairs`, each decoded pair made owned). What the parser makes
/// of a text (the WHATWG URL rules) is left to the name `parsed_url`.
#[verifier::external_body]
fn parse_url(input: &str) -> (r: Option<UrlParts>)
    ensures
        parsed_url(input@) == match r {
            Some(u) => Some(u@),
            None => None,
        },
{
    match url::Url::parse(input) {
        Ok(u) => Some(
            UrlParts {
                scheme: u.scheme().to_string(),
                host: u.host_str().map(|h| h.to_string()),
                path: u.path().to_string(),
                query_pairs: u.query_pairs().map(|(k, v)| (k.into_owned(), v.into_owned())).collect(),
            },
        ),
        Err(_) => None,
    }
}

/// Parses `input` as a URL.
pub fn parse_asset_url(input: &str) -> (r: Option<UrlParts>)
    ensures
        parsed_url(input@) == match r {
            Some(u) => Some(u@),
            None => None,
        },
{
    parse_url(input)
}

/// The value of the first query pair whose key is `key`.
pub open spec fn first_value_for(pairs: Seq<(Seq<char>, Seq<char>)>, key: Seq<char>) -> Option<
    Seq<char>,
>
    decreases pairs.len(),
{
    if pairs.len() == 0 {
        None
    } else if pairs[0].0 == key {
        Some(pairs[0].1)
    } else {
        first_value_for(pairs.drop_first(), key)
    }
}

/// The value of the first query pair whose key is `key`.
pub fn query_value(pairs: &Vec<(String, String)>, key: &str) -> (r: Option<String>)
    ensures
        match r {
            Some(v) => first_value_for(pair_views(pairs@), key@) == Some(v@),
            None => first_value_for(pair_views(pairs@), key@) is None,
        },
{
    let ghost ps = pair_views(pairs@);
    let mut i: usize = 0;
    proof {
        assert(ps.skip(0) =~= ps);
    }
    while i < pairs.len()
        invariant
            i <= pairs@.len(),
            ps == pair_views(pairs@),
            first_value_for(ps, key@) == first_value_for(ps.skip(i as int), key@),
        decreases pairs@.len() - i,
    {
        let pair = &pairs[i];
        proof {
            assert(ps.skip(i as int)[0] == (pair.0@, pair.1@));
            assert(ps.skip(i as int).drop_first() =~= ps.skip(i + 1));
        }
        if str_eq(pair.0.as_str(), key) {
            return Some(pair.1.clone());
        }
        i = i + 1;
    }
    None
}

/// The text is `lit`, written out as characters.
pub open spec fn chars_icon() -> Seq<char> {
    seq!['i', 'c', 'o', 'n']
}

pub open spec fn chars_size() -> Seq<char> {
    seq!['s', 'i', 'z', 'e']
}

pub open spec fn chars_svg_suffix() -> Seq<char> {
    seq!['.', 's', 'v', 'g']
}

pub open spec fn chars_window_controls() -> Seq<char> {
    seq!['w', 'i', 'n', 'd', 'o', 'w', '-', 'c', 'o', 'n', 't', 'r', 'o', 'l', 's']
}

/// An icon that a URL of the `icon` scheme asks for: its name (the path
/// without its leading character), the raw value of its `size` query pair,
/// and the icon theme (the host).
pub struct IconRequest {
    pub name: String,
    pub size: Option<String>,
    pub theme: Option<String>,
}

pub struct IconRequestView {
    pub name: Seq<char>,
    pub size: Option<Seq<char>>,
    pub theme: Option<Seq<char>>,
}

impl View for IconRequest {
    type V = IconRequestView;

    open spec fn view(&self) -> IconRequestView {
        IconRequestView {
            name: self.name@,
            size: match self.size {
                Some(s) => Some(s@),
                None => None,
            },
            theme: match self.theme {
                Some(s) => Some(s@),
                None => None,
            },
        }
    }
}

/// The icon a URL asks for: nothing unless its scheme is `icon`.
pub open spec fn icon_request_spec(url: UrlPartsView) -> Option<IconRequestView> {
    if url.scheme != chars_icon() {
        None
    } else {
        Some(
            IconRequestView {
                name: url.path.drop_first(),
                size: first_value_for(url.query_pairs, chars_size()),
                theme: url.host,
            },
        )
    }
}

/// The path of an `icon` URL has a first character of one byte, so that the
/// name after it can be cut off.
pub open spec fn icon_path_ok(url: UrlPartsView) -> bool {
    url.scheme == chars_icon() ==> url.path.len() > 0 && utf8_width(url.path[0]) == 1
}

/// The text from its second character on, where the first takes one byte.
fn after_first_char(text: &str) -> (r: String)
    requires
        text@.len() > 0,
    ensures
        r@ == text@.drop_first(),
{
    let chars = str_chars(text);
    let mut rest: Vec<char> = Vec::new();
    let mut i: usize = 1;
    while i < chars.len()
        invariant
            1 <= i <= chars@.len(),
            chars@ == text@,
            rest@ == chars@.subrange(1, i as int),
        decreases chars@.len() - i,
    {
        rest.push(chars[i]);
        i = i + 1;
        proof {
            assert(rest@ =~= chars@.subrange(1, i as int));
        }
    }
    proof {
        assert(chars@.subrange(1, chars@.len() as int) =~= text@.drop_first());
    }
    string_from_chars(&rest)
}

/// The icon an `icon` URL asks for.
pub fn icon_request(url: &UrlParts) -> (r: Option<IconRequest>)
    requires
        icon_path_ok(url@),
    ensures
        match r {
            Some(q) => icon_request_spec(url@) == Some(q@),
            None => icon_request_spec(url@) is None,
        },
{
    proof {
        reveal_strlit("icon");
        reveal_strlit("size");
        assert("icon"@ =~= chars_icon());
        assert("size"@ =~= chars_size());
    }
    if !str_eq(url.scheme.as_str(), "icon") {
        return None;
    }
    let name = after_first_char(url.path.as_str());
    let size = query_value(&url.query_pairs, "size");
    let theme = match &url.host {
        Some(h) => Some(h.clone()),
        None => None,
    };
    Some(IconRequest { name, size, theme })
}

/// Serves `icon` URLs from the system's icon theme.
pub struct IconAssetSource;

impl IconAssetSource {
    /// The icon that `path` asks for: nothing where it is no URL, or no
    /// `icon` URL, or (where the icon could not be looked up) has no theme
    /// or no name after the leading character of its path.
    pub fn icon_request(path: &str) -> (r: Option<IconRequest>)
        ensures
            match parsed_url(path@) {
                Some(u) => match r {
                    Some(q) => icon_request_spec(u) == Some(q@) && q.theme.is_some(),
                    None => icon_request_spec(u) is None || !icon_path_ok(u) || u.host is None,
                },
                None => r is None,
            },
    {
        let url = parse_url(path);
        match url {
            None => None,
            Some(u) => {
                let ok = if u.path.as_str().is_empty() {
                    false
                } else {
                    let chars = str_chars(u.path.as_str());
                    (chars[0] as u32) < 0x80
                };
                proof {
                    reveal_strlit("icon");
                    assert("icon"@ =~= chars_icon());
                }
                if str_eq(u.scheme.as_str(), "icon") && (!ok || u.host.is_none()) {
                    return None;
                }
                icon_request(&u)
            },
        }
    }
}

/// Serves `icon` URLs from the icon theme, or from the bundled icons.
pub struct IconThemeAssetSource;

impl IconThemeAssetSource {
    /// The scheme this source serves.
    pub fn scheme(&self) -> (r: &'static str)
        ensures
            r@ == chars_icon(),
    {
        proof {
            reveal_strlit("icon");
        }
        "icon"
    }
}

/// The window control images.
#[derive(Clone, Copy, PartialEq, Eq, Structural)]
pub enum WindowControl {
    Close,
    Minimise,
    Maximise,
    Restore,
}

/// The window control image a URL names: `window-controls` URLs with the
/// path `/close`, `/min`, `/max` or `/res`.
pub open spec fn window_control_spec(url: UrlPartsView) -> Option<WindowControl> {
    if url.scheme != chars_window_controls() {
        None
    } else if url.path == seq!['/', 'c', 'l', 'o', 's', 'e'] {
        Some(WindowControl::Close)
    } else if url.path == seq!['/', 'm', 'i', 'n'] {
        Some(WindowControl::Minimise)
    } else if url.path == seq!['/', 'm', 'a', 'x'] {
        Some(WindowControl::Maximise)
    } else if url.path == seq!['/', 'r', 'e', 's'] {
        Some(WindowControl::Restore)
    } else {
        None
    }
}

/// Serves the window control images.
pub struct WindowControlsAssetSource;

impl WindowControlsAssetSource {
    /// The scheme this source serves.
    pub fn scheme(&self) -> (r: &'static str)
        ensures
            r@ == chars_window_controls(),
    {
        proof {
            reveal_strlit("window-controls");
        }
        "window-controls"
    }

    /// The window control image that `url` names.
    pub fn control(url: &UrlParts) -> (r: Option<WindowControl>)
        ensures
            r == window_control_spec(url@),
    {
        proof {
            reveal_strlit("window-controls");
            reveal_strlit("/close");
            reveal_strlit("/min");
            reveal_strlit("/max");
            reveal_strlit("/res");
            assert("window-controls"@ =~= chars_window_controls());
            assert("/close"@ =~= seq!['/', 'c', 'l', 'o', 's', 'e']);
            assert("/min"@ =~= seq!['/', 'm', 'i', 'n']);
            assert("/max"@ =~= seq!['/', 'm', 'a', 'x']);
            assert("/res"@ =~= seq!['/', 'r', 'e', 's']);
        }
        if !str_eq(url.scheme.as_str(), "window-controls") {
            return None;
        }
        let path = url.path.as_str();
        if str_eq(path, "/close") {
            Some(WindowControl::Close)
        } else if str_eq(path, "/min") {
            Some(WindowControl::Minimise)
        } else if str_eq(path, "/max") {
            Some(WindowControl::Maximise)
        } else if str_eq(path, "/res") {
            Some(WindowControl::Restore)
        } else {
            None
        }
    }
}

/// The positions of the sources whose scheme is `scheme`, in order: the
/// sources a manager asks, one after the other, for a URL of that scheme.
pub open spec fn sources_for_scheme_spec(schemes: Seq<Seq<char>>, scheme: Seq<char>, n: int) -> Seq<
    usize,
>
    decreases n,
{
    if n <= 0 {
        Seq::empty()
    } else if schemes[n - 1] == scheme {
        sources_for_scheme_spec(schemes, scheme, n - 1).push((n - 1) as usize)
    } else {
        sources_for_scheme_spec(schemes, scheme, n - 1)
    }
}

pub open spec fn string_views(v: Seq<String>) -> Seq<Seq<char>> {
    v.map_values(|s: String| s@)
}

/// The positions of the sources whose scheme is `scheme`, in order.
pub fn sources_for_scheme(schemes: &Vec<String>, scheme: &str) -> (r: Vec<usize>)
    ensures
        r@ == sources_for_scheme_spec(string_views(schemes@), scheme@, schemes@.len() as int),
{
    let ghost sv = string_views(schemes@);
    let mut r: Vec<usize> = Vec::new();
    let mut i: usize = 0;
    while i < schemes.len()
        invariant
            i <= schemes@.len(),
            sv == string_views(schemes@),
            r@ == sources_for_scheme_spec(sv, scheme@, i as int),
        decreases schemes@.len() - i,
    {
        proof {
            assert(sv[i as int] == schemes@[i as int]@);
        }
        if str_eq(schemes[i].as_str(), scheme) {
            r.push(i);
        }
        i = i + 1;
    }
    r
}

/// What a manager does with a path: where it is a URL, it asks the sources
/// of the URL's scheme in order; the URL is handed on.
pub fn sources_for_url(path: &str, schemes: &Vec<String>) -> (r: Option<(UrlParts, Vec<usize>)>)
    ensures
        match parsed_url(path@) {
            Some(u) => match r {
                Some(p) => p.0@ == u && p.1@ == sources_for_scheme_spec(
                    string_views(schemes@),
                    u.scheme,
                    schemes@.len() as int,
                ),
                None => false,
            },
            None => r is None,
        },
{
    match parse_url(path) {
        None => None,
        Some(u) => {
            let sources = sources_for_scheme(schemes, u.scheme.as_str());
            Some((u, sources))
        },
    }
}

/// What a manager does next while it looks for a URL's data.
#[derive(Clone, Copy, PartialEq, Eq, Structural)]
pub enum SearchStep {
    /// Ask the source at this position.
    Ask(usize),
    /// Stop: the data was found, or every source was asked.
    Done,
}

/// A manager's search for a URL's data: the sources of the URL's scheme,
/// asked one after the other until one has the data.
pub struct SourceSearch {
    candidates: Vec<usize>,
    asked: usize,
}

impl SourceSearch {
    /// The positions of the sources to ask, in order.
    pub closed spec fn candidates(&self) -> Seq<usize> {
        self.candidates@
    }

    /// How many of them were asked.
    pub closed spec fn asked(&self) -> nat {
        self.asked as nat
    }

    /// A search that has asked no source yet.
    pub fn new(candidates: Vec<usize>) -> (s: Self)
        ensures
            s.candidates() == candidates@,
            s.asked() == 0,
    {
        SourceSearch { candidates, asked: 0 }
    }

    /// The next step, `found` being whether the source asked last had the
    /// data: stop once data was found or every source was asked, else ask the
    /// next source.
    pub fn step(&mut self, found: bool) -> (r: SearchStep)
        ensures
            final(self).candidates() == old(self).candidates(),
            r == if !found && old(self).asked() < old(self).candidates().len() {
                SearchStep::Ask(old(self).candidates()[old(self).asked() as int])
            } else {
                SearchStep::Done
            },
            final(self).asked() == if r is Ask {
                old(self).asked() + 1
            } else {
                old(self).asked()
            },
    {
        if !found && self.asked < self.candidates.len() {
            let source = self.candidates[self.asked];
            self.asked = self.asked + 1;
            SearchStep::Ask(source)
        } else {
            SearchStep::Done
        }
    }
}

/// The pieces of `s` between the `sep` characters, in order.
pub open spec fn split_on_char(s: Seq<char>, sep: char) -> Seq<Seq<char>>
    decreases s.len(),
{
    if s.len() == 0 {
        seq![Seq::<char>::empty()]
    } else {
        let pieces = split_on_char(s.drop_last(), sep);
        if s.last() == sep {
            pieces.push(Seq::<char>::empty())
        } else {
            pieces.update(pieces.len() - 1, pieces.last().push(s.last()))
        }
    }
}

pub open spec fn vec_views(v: Seq<Vec<char>>) -> Seq<Seq<char>> {
    v.map_values(|x: Vec<char>| x@)
}

proof fn lemma_vec_views_push(v: Seq<Vec<char>>, x: Vec<char>)
    ensures
        vec_views(v.push(x)) == vec_views(v).push(x@),
{
    assert(vec_views(v.push(x)) =~= vec_views(v).push(x@));
}

/// `s` split at each `sep`.
fn split_chars(s: &Vec<char>, sep: char) -> (parts: Vec<Vec<char>>)
    ensures
        vec_views(parts@) == split_on_char(s@, sep),
{
    let mut parts: Vec<Vec<char>> = Vec::new();
    let mut cur: Vec<char> = Vec::new();
    let mut i: usize = 0;
    proof {
        assert(s@.take(0) =~= Seq::<char>::empty());
        assert(vec_views(parts@) + seq![cur@] =~= split_on_char(s@.take(0), sep));
    }
    while i < s.len()
        invariant
            i <= s@.len(),
            vec_views(parts@) + seq![cur@] == split_on_char(s@.take(i as int), sep),
        decreases s@.len() - i,
    {
        let c = s[i];
        proof {
            assert(s@.take(i + 1).drop_last() =~= s@.take(i as int));
            assert(s@.take(i + 1).last() == c);
        }
        if c == sep {
            let ghost old_parts = parts@;
            let done = cur;
            parts.push(done);
            cur = Vec::new();
            proof {
                lemma_vec_views_push(old_parts, done);
                assert(vec_views(parts@) + seq![cur@] =~= (vec_views(old_parts) + seq![done@]).push(
                    Seq::<char>::empty(),
                ));
            }
        } else {
            let ghost old_cur = cur@;
            cur.push(c);
            proof {
                assert(vec_views(parts@) + seq![cur@] =~= (vec_views(parts@) + seq![old_cur]).update(
                    vec_views(parts@).len() as int,
                    old_cur.push(c),
                ));
            }
        }
        i = i + 1;
    }
    proof {
        assert(s@.take(s@.len() as int) =~= s@);
        lemma_vec_views_push(parts@, cur);
    }
    parts.push(cur);
    parts
}

/// An ASCII digit.
pub open spec fn is_digit(c: char) -> bool {
    48 <= (c as u32) <= 57
}

/// The number that the decimal digits `d` write.
pub open spec fn digits_value(d: Seq<char>) -> nat
    decreases d.len(),
{
    if d.len() == 0 {
        0
    } else {
        digits_value(d.drop_last()) * 10 + ((d.last() as u32) - 48) as nat
    }
}

/// The digits part of an unsigned number: the text without one leading `+`.
pub open spec fn unsigned_digits(s: Seq<char>) -> Seq<char> {
    if s.len() > 0 && s[0] == '+' {
        s.drop_first()
    } else {
        s
    }
}

/// Every character of `d` is an ASCII digit.
pub open spec fn all_digits(d: Seq<char>) -> bool {
    forall|i: int| 0 <= i < d.len() ==> is_digit(#[trigger] d[i])
}

/// `u8::from_str`: an optional `+`, then one or more ASCII digits whose
/// number fits in a `u8`.
pub open spec fn parse_u8_spec(s: Seq<char>) -> Option<u8> {
    let d = unsigned_digits(s);
    if d.len() > 0 && all_digits(d) && digits_value(d) <= 255 {
        Some(digits_value(d) as u8)
    } else {
        None
    }
}

proof fn lemma_digits_value_prefix(d: Seq<char>, i: int)
    requires
        0 <= i <= d.len(),
        forall|k: int| 0 <= k < d.len() ==> is_digit(#[trigger] d[k]),
    ensures
        digits_value(d.take(i)) <= digits_value(d),
    decreases d.len() - i,
{
    if i < d.len() {
        assert(d.take(i + 1).drop_last() =~= d.take(i));
        lemma_digits_value_prefix(d, i + 1);
    } else {
        assert(d.take(i) =~= d);
    }
}

/// Parses a `u8` as `u8::from_str` does.
pub fn parse_u8(s: &Vec<char>) -> (r: Option<u8>)
    ensures
        r == parse_u8_spec(s@),
{
    let start: usize = if s.len() > 0 && s[0] == '+' {
        1
    } else {
        0
    };
    let ghost d = if s@.len() > 0 && s@[0] == '+' {
        s@.drop_first()
    } else {
        s@
    };
    proof {
        assert(d =~= s@.subrange(start as int, s@.len() as int));
    }
    if start >= s.len() {
        return None;
    }
    let mut value: u32 = 0;
    let mut i: usize = start;
    proof {
        assert(d.take(0) =~= Seq::<char>::empty());
    }
    while i < s.len()
        invariant
            start <= i <= s@.len(),
            d == s@.subrange(start as int, s@.len() as int),
            d == unsigned_digits(s@),
            forall|k: int| 0 <= k < i - start ==> is_digit(#[trigger] d[k]),
            value == digits_value(d.take(i - start)),
            value <= 255,
        decreases s@.len() - i,
    {
        let c = s[i];
        proof {
            assert(d[i - start] == c);
        }
        let code = c as u32;
        if !(code >= 48 && code <= 57) {
            proof {
                assert(!is_digit(d[i - start]));
            }
            return None;
        }
        proof {
            assert(d.take(i - start + 1).drop_last() =~= d.take(i - start));
            assert(d.take(i - start + 1).last() == c);
        }
        value = value * 10 + (code - 48);
        if value > 255 {
            proof {
                assert(value == digits_value(d.take(i - start + 1)));
                if all_digits(d) {
                    lemma_digits_value_prefix(d, i - start + 1);
                }
            }
            return None;
        }
        i = i + 1;
    }
    proof {
        assert(d.take(d.len() as int) =~= d);
    }
    Some(value as u8)
}

/// `s` without the suffix `suffix`, where it ends in it.
pub open spec fn strip_suffix_spec(s: Seq<char>, suffix: Seq<char>) -> Option<Seq<char>> {
    if s.len() >= suffix.len() && s.skip(s.len() - suffix.len()) == suffix {
        Some(s.take(s.len() - suffix.len()))
    } else {
        None
    }
}

/// `s` ends in `suffix`.
pub open spec fn ends_with_spec(s: Seq<char>, suffix: Seq<char>) -> bool {
    s.len() >= suffix.len() && s.skip(s.len() - suffix.len()) == suffix
}

fn ends_with(s: &Vec<char>, suffix: &Vec<char>) -> (r: bool)
    ensures
        r == ends_with_spec(s@, suffix@),
{
    if s.len() < suffix.len() {
        return false;
    }
    let n = s.len();
    let off = n - suffix.len();
    let mut i: usize = 0;
    while i < suffix.len()
        invariant
            off == s@.len() - suffix@.len(),
            off + suffix@.len() == s@.len(),
            n == s@.len(),
            i <= suffix@.len(),
            forall|k: int| 0 <= k < i ==> s@[off + k] == suffix@[k],
        decreases suffix@.len() - i,
    {
        if s[off + i] != suffix[i] {
            proof {
                assert(s@.skip(off as int)[i as int] != suffix@[i as int]);
            }
            return false;
        }
        i = i + 1;
    }
    proof {
        assert(s@.skip(off as int) =~= suffix@);
    }
    true
}

/// The first `n` characters of `s`.
fn take_chars(s: &Vec<char>, n: usize) -> (r: Vec<char>)
    requires
        n <= s@.len(),
    ensures
        r@ == s@.take(n as int),
{
    let mut r: Vec<char> = Vec::new();
    let mut i: usize = 0;
    while i < n
        invariant
            n <= s@.len(),
            i <= n,
            r@ == s@.take(i as int),
        decreases n - i,
    {
        r.push(s[i]);
        i = i + 1;
        proof {
            assert(r@ =~= s@.take(i as int));
        }
    }
    r
}

/// A bundled icon file: its name, its category and its size in pixels.
pub struct BundledContemporaryIconDescriptor {
    pub name: String,
    pub category: String,
    pub size: u8,
}

pub struct IconDescriptorView {
    pub name: Seq<char>,
    pub category: Seq<char>,
    pub size: u8,
}

impl View for BundledContemporaryIconDescriptor {
    type V = IconDescriptorView;

    open spec fn view(&self) -> IconDescriptorView {
        IconDescriptorView { name: self.name@, category: self.category@, size: self.size }
    }
}

/// The icon file that a path `.../category/size/name.svg` names: the last
/// three pieces between `/` are the category, the size (a `u8`) and the
/// name with the suffix `.svg`.
pub open spec fn path_to_descriptor_spec(path: Seq<char>) -> Option<IconDescriptorView> {
    let parts = split_on_char(path, '/');
    let n = parts.len() as int;
    if n < 3 {
        None
    } else {
        match (parse_u8_spec(parts[n - 2]), strip_suffix_spec(parts[n - 1], chars_svg_suffix())) {
            (Some(size), Some(name)) => Some(
                IconDescriptorView { category: parts[n - 3], size, name },
            ),
            _ => None,
        }
    }
}

/// The descriptors of the bundled files, among the first `n` of `paths`,
/// whose path ends in `file_name` and names an icon file.
pub open spec fn sizes_spec(paths: Seq<Seq<char>>, file_name: Seq<char>, n: int) -> Seq<
    IconDescriptorView,
>
    decreases n,
{
    if n <= 0 {
        Seq::empty()
    } else {
        let rest = sizes_spec(paths, file_name, n - 1);
        if ends_with_spec(paths[n - 1], file_name) && path_to_descriptor_spec(paths[n - 1]) is Some {
            rest.push(path_to_descriptor_spec(paths[n - 1])->0)
        } else {
            rest
        }
    }
}

pub open spec fn descriptor_views(v: Seq<BundledContemporaryIconDescriptor>) -> Seq<
    IconDescriptorView,
> {
    v.map_values(|d: BundledContemporaryIconDescriptor| d@)
}

/// The decimal digits of `n`.
pub open spec fn decimal(n: nat) -> Seq<char>
    decreases n,
{
    if n < 10 {
        seq![((n + 48) as u32) as char]
    } else {
        decimal(n / 10).push((((n % 10) + 48) as u32) as char)
    }
}

/// Every number that a `u8` holds reads back from its decimal digits, and
/// with a `+` before them.
pub proof fn law_u8_reads_back_from_its_digits(n: u8)
    ensures
        parse_u8_spec(decimal(n as nat)) == Some(n),
        parse_u8_spec(seq!['+'] + decimal(n as nat)) == Some(n),
{
    lemma_decimal(n as nat);
    assert(unsigned_digits(seq!['+'] + decimal(n as nat)) =~= decimal(n as nat));
}

/// A number too large for a `u8` does not parse as one.
pub proof fn law_large_numbers_do_not_parse_as_u8(n: nat)
    requires
        n > 255,
    ensures
        parse_u8_spec(decimal(n)) is None,
{
    lemma_decimal(n);
}

/// The bundled icons of the Contemporary icon set, by the paths of their
/// files (`category/size/name.svg`).
pub struct BundledContemporaryIcons;

impl BundledContemporaryIcons {
    /// The icon file that `path` names.
    pub fn path_to_descriptor(path: &str) -> (r: Option<BundledContemporaryIconDescriptor>)
        ensures
            match r {
                Some(d) => path_to_descriptor_spec(path@) == Some(d@),
                None => path_to_descriptor_spec(path@) is None,
            },
    {
        let chars = str_chars(path);
        let parts = split_chars(&chars, '/');
        let n = parts.len();
        if n < 3 {
            return None;
        }
        let ghost pv = vec_views(parts@);
        proof {
            assert(pv[n - 3] == parts@[n - 3]@);
            assert(pv[n - 2] == parts@[n - 2]@);
            assert(pv[n - 1] == parts@[n - 1]@);
        }
        let size = match parse_u8(&parts[n - 2]) {
            Some(size) => size,
            None => return None,
        };
        let mut suffix: Vec<char> = Vec::new();
        suffix.push('.');
        suffix.push('s');
        suffix.push('v');
        suffix.push('g');
        proof {
            assert(suffix@ =~= chars_svg_suffix());
        }
        let last = &parts[n - 1];
        if !ends_with(last, &suffix) {
            return None;
        }
        let name = take_chars(last, last.len() - 4);
        Some(
            BundledContemporaryIconDescriptor {
                category: string_from_chars(&parts[n - 3]),
                size,
                name: string_from_chars(&name),
            },
        )
    }

    /// The bundled files of the icon `icon_name`, among the file `paths`, in
    /// order: those whose path ends in `icon_name.svg` and names an icon file.
    pub fn sizes(paths: &Vec<String>, icon_name: &str) -> (r: Vec<BundledContemporaryIconDescriptor>)
        ensures
            descriptor_views(r@) == sizes_spec(
                string_views(paths@),
                icon_name@ + chars_svg_suffix(),
                paths@.len() as int,
            ),
    {
        let mut file_name = str_chars(icon_name);
        file_name.push('.');
        file_name.push('s');
        file_name.push('v');
        file_name.push('g');
        proof {
            assert(file_name@ =~= icon_name@ + chars_svg_suffix());
        }
        let ghost pv = string_views(paths@);
        let mut r: Vec<BundledContemporaryIconDescriptor> = Vec::new();
        let mut i: usize = 0;
        while i < paths.len()
            invariant
                i <= paths@.len(),
                pv == string_views(paths@),
                file_name@ == icon_name@ + chars_svg_suffix(),
                descriptor_views(r@) == sizes_spec(pv, file_name@, i as int),
            decreases paths@.len() - i,
        {
            let p = paths[i].as_str();
            proof {
                assert(pv[i as int] == p@);
            }
            let pc = str_chars(p);
            if ends_with(&pc, &file_name) {
                match Self::path_to_descriptor(p) {
                    Some(d) => {
                        let ghost before = r@;
                        r.push(d);
                        proof {
                            assert(descriptor_views(r@) =~= descriptor_views(before).push(d@));
                        }
                    },
                    None => {},
                }
            }
            i = i + 1;
        }
        r
    }

    /// The path of the file of an icon: `category/size/name.svg`.
    pub fn icon_path(descriptor: &BundledContemporaryIconDescriptor) -> (r: String)
        ensures
            r@ == icon_path_spec(descriptor@),
    {
        let mut chars = str_chars(descriptor.category.as_str());
        chars.push('/');
        let size = descriptor.size;
        let ghost before = chars@;
        proof {
            reveal_with_fuel(decimal, 3);
        }
        if size >= 100 {
            chars.push(char_of_digit(size / 100));
            chars.push(char_of_digit((size / 10) % 10));
            chars.push(char_of_digit(size % 10));
            proof {
                assert(decimal((size / 10) as nat) == decimal((size / 100) as nat).push(
                    char_of_digit_spec(((size / 10) % 10) as nat),
                ));
                assert(chars@ =~= before + decimal(size as nat));
            }
        } else if size >= 10 {
            chars.push(char_of_digit(size / 10));
            chars.push(char_of_digit(size % 10));
            proof {
                assert(chars@ =~= before + decimal(size as nat));
            }
        } else {
            chars.push(char_of_digit(size));
            proof {
                assert(chars@ =~= before + decimal(size as nat));
            }
        }
        chars.push('/');
        let name = str_chars(descriptor.name.as_str());
        let mut i: usize = 0;
        let ghost mid = chars@;
        while i < name.len()
            invariant
                i <= name@.len(),
                chars@ == mid + name@.take(i as int),
            decreases name@.len() - i,
        {
            chars.push(name[i]);
            i = i + 1;
            proof {
                assert(chars@ =~= mid + name@.take(i as int));
            }
        }
        chars.push('.');
        chars.push('s');
        chars.push('v');
        chars.push('g');
        proof {
            assert(name@.take(name@.len() as int) =~= name@);
            assert(chars@ =~= descriptor@.category + seq!['/'] + decimal(descriptor@.size as nat)
                + seq!['/'] + descriptor@.name + chars_svg_suffix());
        }
        string_from_chars(&chars)
    }
}

pub open spec fn char_of_digit_spec(d: nat) -> char {
    ((d + 48) as u32) as char
}

fn char_of_digit(d: u8) -> (c: char)
    requires
        d < 10,
    ensures
        c == char_of_digit_spec(d as nat),
{
    let v: u8 = d + 48;
    v as char
}

/// The icon to load among the sizes of an icon, for a size limit (`None`
/// where no size fits, as for an unusable requested size): the largest that
/// fits the limit, the last of them on a tie; where none fits, the smallest,
/// the first of them on a tie; nothing where there are no sizes.
pub open spec fn is_preferred_icon(sizes: Seq<u8>, limit: Option<u64>, i: int) -> bool {
    &&& 0 <= i < sizes.len()
    &&& if exists|k: int| 0 <= k < sizes.len() && fits_limit(#[trigger] sizes[k], limit) {
        &&& fits_limit(sizes[i], limit)
        &&& forall|k: int|
            0 <= k < sizes.len() && fits_limit(#[trigger] sizes[k], limit) ==> sizes[k] <= sizes[i]
        &&& forall|k: int|
            i < k < sizes.len() && fits_limit(#[trigger] sizes[k], limit) ==> sizes[k] < sizes[i]
    } else {
        &&& forall|k: int| 0 <= k < sizes.len() ==> sizes[i] <= #[trigger] sizes[k]
        &&& forall|k: int| 0 <= k < i ==> sizes[i] < #[trigger] sizes[k]
    }
}

/// An icon of this size fits the limit.
pub open spec fn fits_limit(size: u8, limit: Option<u64>) -> bool {
    limit is Some && size as u64 <= limit->0
}

pub open spec fn icon_sizes(icons: Seq<BundledContemporaryIconDescriptor>) -> Seq<u8> {
    icons.map_values(|d: BundledContemporaryIconDescriptor| d.size)
}

/// The position of the icon to load among `icons`, for a size limit.
pub fn preferred_icon(icons: &Vec<BundledContemporaryIconDescriptor>, limit: Option<u64>) -> (r:
    Option<usize>)
    ensures
        match r {
            Some(i) => is_preferred_icon(icon_sizes(icons@), limit, i as int),
            None => icons@.len() == 0,
        },
{
    let ghost sizes = icon_sizes(icons@);
    if icons.len() == 0 {
        return None;
    }
    let mut best_fit: Option<usize> = None;
    let mut smallest: usize = 0;
    let mut i: usize = 0;
    while i < icons.len()
        invariant
            0 < icons@.len(),
            i <= icons@.len(),
            sizes == icon_sizes(icons@),
            smallest < icons@.len(),
            smallest <= i,
            i > 0 ==> smallest < i,
            forall|k: int| 0 <= k < i ==> sizes[smallest as int] <= #[trigger] sizes[k],
            forall|k: int| 0 <= k < smallest ==> sizes[smallest as int] < #[trigger] sizes[k],
            match best_fit {
                Some(b) => {
                    &&& b < i
                    &&& fits_limit(sizes[b as int], limit)
                    &&& forall|k: int|
                        0 <= k < i && fits_limit(#[trigger] sizes[k], limit) ==> sizes[k]
                            <= sizes[b as int]
                    &&& forall|k: int|
                        b < k < i && fits_limit(#[trigger] sizes[k], limit) ==> sizes[k]
                            < sizes[b as int]
                },
                None => forall|k: int| 0 <= k < i ==> !fits_limit(#[trigger] sizes[k], limit),
            },
        decreases icons@.len() - i,
    {
        let size = icons[i].size;
        proof {
            assert(sizes[i as int] == size);
            assert(sizes[smallest as int] == icons@[smallest as int].size);
        }
        if i > 0 && size < icons[smallest].size {
            smallest = i;
        }
        let fits = match limit {
            Some(l) => (size as u64) <= l,
            None => false,
        };
        if fits {
            match best_fit {
                Some(b) => {
                    proof {
                        assert(sizes[b as int] == icons@[b as int].size);
                    }
                    if size >= icons[b].size {
                        best_fit = Some(i);
                    }
                },
                None => {
                    best_fit = Some(i);
                },
            }
        }
        i = i + 1;
    }
    match best_fit {
        Some(b) => Some(b),
        None => Some(smallest),
    }
}

/// The path of the file of an icon: `category/size/name.svg`.
pub open spec fn icon_path_spec(d: IconDescriptorView) -> Seq<char> {
    d.category + seq!['/'] + decimal(d.size as nat) + seq!['/'] + d.name + chars_svg_suffix()
}

proof fn lemma_split_on_char_len(s: Seq<char>, sep: char)
    ensures
        split_on_char(s, sep).len() >= 1,
    decreases s.len(),
{
    if s.len() > 0 {
        lemma_split_on_char_len(s.drop_last(), sep);
    }
}

proof fn lemma_split_without_sep(s: Seq<char>, sep: char)
    requires
        !s.contains(sep),
    ensures
        split_on_char(s, sep) == seq![s],
    decreases s.len(),
{
    if s.len() == 0 {
        assert(s =~= Seq::<char>::empty());
        assert(split_on_char(s, sep) =~= seq![s]);
    } else {
        assert(!s.drop_last().contains(sep)) by {
            if s.drop_last().contains(sep) {
                let k = choose|k: int| 0 <= k < s.drop_last().len() && s.drop_last()[k] == sep;
                assert(s[k] == sep);
            }
        }
        lemma_split_without_sep(s.drop_last(), sep);
        assert(s.last() != sep) by {
            assert(s[s.len() - 1] == s.last());
        }
        assert(s.drop_last().push(s.last()) =~= s);
        let pieces = split_on_char(s.drop_last(), sep);
        assert(pieces == seq![s.drop_last()]);
        assert(split_on_char(s, sep) == pieces.update(pieces.len() - 1, pieces.last().push(s.last())));
        assert(pieces.last() == s.drop_last());
        assert(split_on_char(s, sep) =~= seq![s]);
    }
}

proof fn lemma_split_concat(a: Seq<char>, b: Seq<char>, sep: char)
    ensures
        split_on_char(a + seq![sep] + b, sep) == split_on_char(a, sep) + split_on_char(b, sep),
    decreases b.len(),
{
    let s = a + seq![sep] + b;
    lemma_split_on_char_len(a, sep);
    if b.len() == 0 {
        assert(s.drop_last() =~= a);
        assert(s.last() == sep);
        assert(split_on_char(b, sep) =~= seq![Seq::<char>::empty()]);
        assert(split_on_char(s, sep) =~= split_on_char(a, sep) + split_on_char(b, sep));
    } else {
        let b0 = b.drop_last();
        lemma_split_concat(a, b0, sep);
        lemma_split_on_char_len(b0, sep);
        assert(s.drop_last() =~= a + seq![sep] + b0);
        assert(s.last() == b.last());
        assert(split_on_char(s, sep) =~= split_on_char(a, sep) + split_on_char(b, sep));
    }
}

proof fn lemma_decimal(n: nat)
    ensures
        decimal(n).len() > 0,
        all_digits(decimal(n)),
        digits_value(decimal(n)) == n,
        !decimal(n).contains('/'),
        decimal(n)[0] != '+',
    decreases n,
{
    if n < 10 {
        let c = ((n + 48) as u32) as char;
        assert(decimal(n) =~= seq![c]);
        assert(c as u32 == n + 48);
        assert(decimal(n).drop_last() =~= Seq::<char>::empty());
        assert(decimal(n).last() == c);
        assert(digits_value(decimal(n).drop_last()) == 0);
        assert(digits_value(decimal(n)) == n);
        if decimal(n).contains('/') {
            let k = choose|k: int| 0 <= k < decimal(n).len() && decimal(n)[k] == '/';
            assert(k == 0);
        }
    } else {
        lemma_decimal(n / 10);
        let c = (((n % 10) + 48) as u32) as char;
        let d = decimal(n / 10);
        assert(decimal(n) == d.push(c));
        assert(c as u32 == (n % 10) + 48);
        assert(decimal(n).drop_last() =~= d);
        assert(decimal(n).last() == c);
        assert(n == (n / 10) * 10 + n % 10) by (nonlinear_arith);
        assert(digits_value(decimal(n)) == digits_value(d) * 10 + ((c as u32) - 48) as nat);
        assert forall|i: int| 0 <= i < decimal(n).len() implies is_digit(#[trigger] decimal(n)[i]) by {
            if i < d.len() {
                assert(decimal(n)[i] == d[i]);
            }
        }
        if decimal(n).contains('/') {
            let k = choose|k: int| 0 <= k < decimal(n).len() && decimal(n)[k] == '/';
            if k < d.len() {
                assert(d[k] == '/');
            }
        }
        assert(decimal(n)[0] == d[0]);
    }
}

/// Reading back the path of an icon's file gives the icon again, where its
/// category and name hold no `/`.
pub proof fn law_icon_path_round_trip(d: IconDescriptorView)
    requires
        !d.category.contains('/'),
        !d.name.contains('/'),
    ensures
        path_to_descriptor_spec(icon_path_spec(d)) == Some(d),
{
    let dec = decimal(d.size as nat);
    let name_svg = d.name + chars_svg_suffix();
    lemma_decimal(d.size as nat);
    assert(!name_svg.contains('/')) by {
        if name_svg.contains('/') {
            let k = choose|k: int| 0 <= k < name_svg.len() && name_svg[k] == '/';
            if k < d.name.len() {
                assert(d.name[k] == '/');
            } else {
                assert(chars_svg_suffix()[k - d.name.len()] == '/');
            }
        }
    }
    let rest = dec + seq!['/'] + name_svg;
    assert(icon_path_spec(d) =~= d.category + seq!['/'] + rest);
    lemma_split_concat(d.category, rest, '/');
    lemma_split_concat(dec, name_svg, '/');
    lemma_split_without_sep(d.category, '/');
    lemma_split_without_sep(dec, '/');
    lemma_split_without_sep(name_svg, '/');
    let parts = split_on_char(icon_path_spec(d), '/');
    assert(parts =~= seq![d.category, dec, name_svg]);
    assert(unsigned_digits(dec) == dec);
    assert(name_svg.skip(name_svg.len() - 4) =~= chars_svg_suffix());
    assert(name_svg.take(name_svg.len() - 4) =~= d.name);
}

} // verus!
