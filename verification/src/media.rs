//! Media descriptors and the argument payloads built from them.

use crate::text::{chars_of, contains_run, lemma_run_between, lower_char, to_lower_char};
use vstd::prelude::*;
use vstd::string::*;

verus! {

/// The number of characters of `url` before its query or fragment, that is
/// before the first `?` or `#`.
pub open spec fn path_len(url: Seq<char>) -> nat
    decreases url.len(),
{
    if url.len() == 0 || url.first() == '?' || url.first() == '#' {
        0
    } else {
        1 + path_len(url.drop_first())
    }
}

/// The file extension of a path: what follows the last `.` of its last
/// `/`-separated segment, if that segment has a `.`.
pub open spec fn extension(path: Seq<char>) -> Option<Seq<char>>
    decreases path.len(),
{
    if path.len() == 0 || path.last() == '/' {
        None
    } else if path.last() == '.' {
        Some(Seq::empty())
    } else {
        match extension(path.drop_last()) {
            Some(found) => Some(found.push(path.last())),
            None => None,
        }
    }
}

/// `s` with its ASCII capitals made small.
pub open spec fn lowered(s: Seq<char>) -> Seq<char> {
    s.map_values(|c: char| lower_char(c))
}

/// The media-type token of a URL: the lower-cased file extension of its
/// path, empty where the path has none.
pub open spec fn type_token(url: Seq<char>) -> Seq<char> {
    match extension(url.take(path_len(url) as int)) {
        Some(found) => lowered(found),
        None => Seq::empty(),
    }
}

/// Where the path of a URL ends.
pub proof fn lemma_path_len(url: Seq<char>, end: int)
    requires
        0 <= end <= url.len(),
        forall|j: int| 0 <= j < end ==> url[j] != '?' && url[j] != '#',
        end == url.len() || url[end] == '?' || url[end] == '#',
    ensures
        path_len(url) == end,
    decreases url.len(),
{
    if end > 0 {
        let rest = url.drop_first();
        assert forall|j: int| 0 <= j < end - 1 implies rest[j] != '?' && rest[j] != '#' by {
            assert(rest[j] == url[j + 1]);
        }
        lemma_path_len(rest, end - 1);
    }
}

/// A `.` followed by neither `.` nor `/` opens the extension.
pub proof fn lemma_extension_found(path: Seq<char>, start: int)
    requires
        0 < start <= path.len(),
        path[start - 1] == '.',
        forall|j: int| start <= j < path.len() ==> path[j] != '.' && path[j] != '/',
    ensures
        extension(path) == Some(path.skip(start)),
    decreases path.len(),
{
    if start == path.len() {
        assert(path.skip(start) =~= Seq::<char>::empty());
    } else {
        lemma_extension_found(path.drop_last(), start);
        assert(path.skip(start) =~= path.drop_last().skip(start).push(path.last()));
    }
}

/// A last segment without a `.` has no extension.
pub proof fn lemma_extension_absent(path: Seq<char>, start: int)
    requires
        0 <= start <= path.len(),
        start == 0 || path[start - 1] == '/',
        forall|j: int| start <= j < path.len() ==> path[j] != '.' && path[j] != '/',
    ensures
        extension(path) is None,
    decreases path.len(),
{
    if start < path.len() {
        lemma_extension_absent(path.drop_last(), start);
    }
}

/// The media-type token of `url`: the lower-cased file extension of its
/// path, empty where the path has none.
pub fn media_type_token(url: &str) -> (token: String)
    ensures
        token@ == type_token(url@),
{
    let chars = chars_of(url);
    let mut end: usize = 0;
    while end < chars.len() && chars[end] != '?' && chars[end] != '#'
        invariant
            0 <= end <= chars.len(),
            forall|j: int| 0 <= j < end ==> chars@[j] != '?' && chars@[j] != '#',
        decreases chars.len() - end,
    {
        end += 1;
    }
    let ghost path = chars@.take(end as int);
    proof {
        lemma_path_len(chars@, end as int);
    }
    let mut start: usize = end;
    let mut dotted: bool = false;
    while start > 0
        invariant_except_break
            !dotted,
        invariant
            0 <= start <= end <= chars.len(),
            path == chars@.take(end as int),
            forall|j: int| start <= j < end ==> path[j] != '.' && path[j] != '/',
        ensures
            dotted ==> start > 0 && path[start - 1] == '.',
            !dotted ==> start == 0 || path[start - 1] == '/',
        decreases start,
    {
        let c = chars[start - 1];
        if c == '.' {
            dotted = true;
            break ;
        }
        if c == '/' {
            break ;
        }
        start -= 1;
    }
    let mut token = String::new();
    if !dotted {
        proof {
            lemma_extension_absent(path, start as int);
        }
        return token;
    }
    proof {
        lemma_extension_found(path, start as int);
    }
    let mut at: usize = start;
    while at < end
        invariant
            start <= at <= end <= chars.len(),
            path == chars@.take(end as int),
            token@ == lowered(path.subrange(start as int, at as int)),
        decreases end - at,
    {
        token.push(to_lower_char(chars[at]));
        proof {
            assert(lowered(path.subrange(start as int, at + 1)) =~= lowered(
                path.subrange(start as int, at as int),
            ).push(lower_char(path[at as int])));
        }
        at += 1;
    }
    assert(path.subrange(start as int, end as int) =~= path.skip(start as int));
    token
}

/// What stands for one character in an attribute value.
pub open spec fn escape_char(c: char) -> Seq<char> {
    if c == '&' {
        seq!['&', 'a', 'm', 'p', ';']
    } else if c == '<' {
        seq!['&', 'l', 't', ';']
    } else if c == '>' {
        seq!['&', 'g', 't', ';']
    } else if c == '"' {
        seq!['&', 'q', 'u', 'o', 't', ';']
    } else if c == '\'' {
        seq!['&', 'a', 'p', 'o', 's', ';']
    } else {
        seq![c]
    }
}

/// `s` made safe to stand inside an attribute value: each of `& < > " '`
/// replaced by its entity, every other character kept.
pub open spec fn escaped(s: Seq<char>) -> Seq<char>
    decreases s.len(),
{
    if s.len() == 0 {
        Seq::empty()
    } else {
        escaped(s.drop_last()) + escape_char(s.last())
    }
}

/// Whether `c` would end or open markup inside an attribute value.
pub open spec fn is_markup(c: char) -> bool {
    c == '<' || c == '>' || c == '"' || c == '\''
}

/// Escaped text holds no character that would end or open markup.
pub proof fn lemma_escaped_is_inert(s: Seq<char>)
    ensures
        forall|i: int| 0 <= i < escaped(s).len() ==> !is_markup(#[trigger] escaped(s)[i]),
    decreases s.len(),
{
    if s.len() > 0 {
        lemma_escaped_is_inert(s.drop_last());
        let front = escaped(s.drop_last());
        let tail = escape_char(s.last());
        assert forall|i: int| 0 <= i < escaped(s).len() implies !is_markup(
            #[trigger] escaped(s)[i],
        ) by {
            if i < front.len() {
                assert(escaped(s)[i] == front[i]);
            } else {
                assert(escaped(s)[i] == tail[i - front.len()]);
            }
        }
    }
}

/// Text without `& < > " '` is its own escaped form.
pub proof fn lemma_escaped_plain(s: Seq<char>)
    requires
        forall|i: int| 0 <= i < s.len() ==> s[i] != '&' && !is_markup(#[trigger] s[i]),
    ensures
        escaped(s) == s,
    decreases s.len(),
{
    if s.len() > 0 {
        lemma_escaped_plain(s.drop_last());
        assert(escaped(s) =~= s);
    }
}

/// Makes `text` safe to stand inside an attribute value.
pub fn escape_attribute(text: &str) -> (out: String)
    ensures
        out@ == escaped(text@),
{
    let mut out = String::new();
    proof {
        reveal_strlit("&amp;");
        reveal_strlit("&lt;");
        reveal_strlit("&gt;");
        reveal_strlit("&quot;");
        reveal_strlit("&apos;");
        assert("&amp;"@ =~= escape_char('&'));
        assert("&lt;"@ =~= escape_char('<'));
        assert("&gt;"@ =~= escape_char('>'));
        assert("&quot;"@ =~= escape_char('"'));
        assert("&apos;"@ =~= escape_char('\''));
    }
    for c in it: text.chars()
        invariant
            it.seq() == text@,
            out@ == escaped(text@.take(it.index())),
            "&amp;"@ == escape_char('&'),
            "&lt;"@ == escape_char('<'),
            "&gt;"@ == escape_char('>'),
            "&quot;"@ == escape_char('"'),
            "&apos;"@ == escape_char('\''),
    {
        proof {
            let upto = text@.take(it.index() + 1);
            assert(upto.drop_last() =~= text@.take(it.index()));
            assert(upto.last() == c);
        }
        if c == '&' {
            out.append("&amp;");
        } else if c == '<' {
            out.append("&lt;");
        } else if c == '>' {
            out.append("&gt;");
        } else if c == '"' {
            out.append("&quot;");
        } else if c == '\'' {
            out.append("&apos;");
        } else {
            out.push(c);
            assert(out@ =~= escaped(text@.take(it.index())) + seq![c]);
        }
    }
    assert(text@.take(text@.len() as int) =~= text@);
    out
}

/// The opening of an item description, up to its resources.
pub const ITEM_OPEN: &'static str =
    "<DIDL-Lite xmlns=\"urn:schemas-upnp-org:metadata-1-0/DIDL-Lite/\" xmlns:dc=\"http://purl.org/dc/elements/1.1/\" xmlns:upnp=\"urn:schemas-upnp-org:metadata-1-0/upnp/\"><item id=\"0\" parentID=\"-1\" restricted=\"1\"><dc:title>Video</dc:title><upnp:class>object.item.videoItem</upnp:class>";

/// The opening of a resource, up to the mime type of its protocol hint.
pub const RES_OPEN: &'static str = "<res protocolInfo=\"http-get:*:";

/// The mime family of the video resource.
pub const VIDEO_FAMILY: &'static str = "video/";

/// The mime family of the subtitle resource.
pub const TEXT_FAMILY: &'static str = "text/";

/// The end of a protocol hint, up to the resource's address.
pub const RES_ADDRESS: &'static str = ":*\">";

/// The end of a resource.
pub const RES_CLOSE: &'static str = "</res>";

/// The end of an item description.
pub const ITEM_CLOSE: &'static str = "</item></DIDL-Lite>";

/// The arguments of `SetAVTransportURI` up to the address.
pub const SET_URI_OPEN: &'static str =
    "\n            <InstanceID>0</InstanceID>\n            <CurrentURI>";

/// The arguments of `SetAVTransportURI` between address and metadata.
pub const SET_URI_METADATA: &'static str = "</CurrentURI>\n            <CurrentURIMetaData>";

/// The end of the arguments of `SetAVTransportURI`.
pub const SET_URI_CLOSE: &'static str = "</CurrentURIMetaData>\n            ";

/// The arguments of `Play`: the first instance, at normal speed.
pub const PAYLOAD_PLAY: &'static str = "\n    <InstanceID>0</InstanceID>\n    <Speed>1</Speed>\n";

/// A media resource to cast: its address, the media-type token that names
/// its format, and the subtitle that goes with it, if any.
#[derive(Debug, PartialEq, Eq)]
pub struct MediaDescriptor {
    pub url: String,
    pub media_type: String,
    pub subtitle_url: Option<String>,
    pub subtitle_type: Option<String>,
}

/// The mathematical value of a [`MediaDescriptor`].
pub struct MediaView {
    pub url: Seq<char>,
    pub media_type: Seq<char>,
    pub subtitle_url: Option<Seq<char>>,
    pub subtitle_type: Option<Seq<char>>,
}

/// The characters of an optional string.
pub open spec fn text_of(s: Option<String>) -> Option<Seq<char>> {
    match s {
        Some(held) => Some(held@),
        None => None,
    }
}

impl View for MediaDescriptor {
    type V = MediaView;

    open spec fn view(&self) -> MediaView {
        MediaView {
            url: self.url@,
            media_type: self.media_type@,
            subtitle_url: text_of(self.subtitle_url),
            subtitle_type: text_of(self.subtitle_type),
        }
    }
}

/// The descriptor of the resource at `url`, its type taken from the URL
/// and no subtitle named.
pub open spec fn media_at(url: Seq<char>) -> MediaView {
    MediaView { url, media_type: type_token(url), subtitle_url: None, subtitle_type: None }
}

/// The address of the subtitle: the one named, else that of the video.
pub open spec fn subtitle_url_of(m: MediaView) -> Seq<char> {
    match m.subtitle_url {
        Some(url) => url,
        None => m.url,
    }
}

/// The type of the subtitle: the one named, else that of the video.
pub open spec fn subtitle_type_of(m: MediaView) -> Seq<char> {
    match m.subtitle_type {
        Some(kind) => kind,
        None => m.media_type,
    }
}

/// The item description of a media resource: one video resource whose
/// protocol hint names `video/<type>`, and one subtitle resource.
pub open spec fn metadata_text(m: MediaView) -> Seq<char> {
    ITEM_OPEN@ + RES_OPEN@ + VIDEO_FAMILY@ + m.media_type + RES_ADDRESS@ + m.url + RES_CLOSE@
        + RES_OPEN@ + TEXT_FAMILY@ + subtitle_type_of(m) + RES_ADDRESS@ + subtitle_url_of(m)
        + RES_CLOSE@ + ITEM_CLOSE@
}

/// The arguments of `SetAVTransportURI` for a media resource: its address,
/// and its item description in escaped form.
pub open spec fn set_uri_text(m: MediaView) -> Seq<char> {
    SET_URI_OPEN@ + m.url + SET_URI_METADATA@ + escaped(metadata_text(m)) + SET_URI_CLOSE@
}

impl Clone for MediaDescriptor {
    fn clone(&self) -> (out: Self)
        ensures
            out == *self,
    {
        MediaDescriptor {
            url: self.url.clone(),
            media_type: self.media_type.clone(),
            subtitle_url: match &self.subtitle_url {
                Some(url) => Some(url.clone()),
                None => None,
            },
            subtitle_type: match &self.subtitle_type {
                Some(kind) => Some(kind.clone()),
                None => None,
            },
        }
    }
}

impl MediaDescriptor {
    /// The descriptor of the resource at `url`: the type is the media-type
    /// token of the URL, and no subtitle is named.
    pub fn from_url(url: &str) -> (out: MediaDescriptor)
        ensures
            out@ == media_at(url@),
    {
        MediaDescriptor {
            url: url.to_owned(),
            media_type: media_type_token(url),
            subtitle_url: None,
            subtitle_type: None,
        }
    }

    /// This descriptor with the subtitle at `url`, of type `kind`.
    pub fn with_subtitle(self, url: &str, kind: &str) -> (out: MediaDescriptor)
        ensures
            out@ == (MediaView {
                subtitle_url: Some(url@),
                subtitle_type: Some(kind@),
                ..self@
            }),
    {
        MediaDescriptor {
            url: self.url,
            media_type: self.media_type,
            subtitle_url: Some(url.to_owned()),
            subtitle_type: Some(kind.to_owned()),
        }
    }

    /// The address of the subtitle: the one named, else that of the video.
    pub fn subtitle_url(&self) -> (url: &str)
        ensures
            url@ == subtitle_url_of(self@),
    {
        match &self.subtitle_url {
            Some(url) => url.as_str(),
            None => self.url.as_str(),
        }
    }

    /// The type of the subtitle: the one named, else that of the video.
    pub fn subtitle_type(&self) -> (kind: &str)
        ensures
            kind@ == subtitle_type_of(self@),
    {
        match &self.subtitle_type {
            Some(kind) => kind.as_str(),
            None => self.media_type.as_str(),
        }
    }

    /// The item description of this resource.
    pub fn metadata(&self) -> (text: String)
        ensures
            text@ == metadata_text(self@),
    {
        let mut text = String::from_str(ITEM_OPEN);
        text.append(RES_OPEN);
        text.append(VIDEO_FAMILY);
        text.append(self.media_type.as_str());
        text.append(RES_ADDRESS);
        text.append(self.url.as_str());
        text.append(RES_CLOSE);
        text.append(RES_OPEN);
        text.append(TEXT_FAMILY);
        text.append(self.subtitle_type());
        text.append(RES_ADDRESS);
        text.append(self.subtitle_url());
        text.append(RES_CLOSE);
        text.append(ITEM_CLOSE);
        text
    }

    /// The arguments of `SetAVTransportURI` for this resource.
    pub fn set_uri_payload(&self) -> (text: String)
        ensures
            text@ == set_uri_text(self@),
    {
        let mut text = String::from_str(SET_URI_OPEN);
        text.append(self.url.as_str());
        text.append(SET_URI_METADATA);
        text.append(escape_attribute(self.metadata().as_str()).as_str());
        text.append(SET_URI_CLOSE);
        text
    }
}

/// The protocol hint of an item description names the video's mime type,
/// `video/` followed by the media-type token.
pub proof fn lemma_metadata_names_type(m: MediaView)
    ensures
        contains_run(metadata_text(m), VIDEO_FAMILY@ + m.media_type),
{
    let before = ITEM_OPEN@ + RES_OPEN@;
    let after = RES_ADDRESS@ + m.url + RES_CLOSE@ + RES_OPEN@ + TEXT_FAMILY@ + subtitle_type_of(m)
        + RES_ADDRESS@ + subtitle_url_of(m) + RES_CLOSE@ + ITEM_CLOSE@;
    lemma_run_between(before, VIDEO_FAMILY@ + m.media_type, after);
    assert(metadata_text(m) =~= before + (VIDEO_FAMILY@ + m.media_type) + after);
}

/// The item description of the resource at a URL names `video/` followed
/// by the lower-cased file extension of the URL.
pub proof fn lemma_metadata_of_url(url: Seq<char>)
    ensures
        media_at(url).media_type == type_token(url),
        contains_run(metadata_text(media_at(url)), VIDEO_FAMILY@ + type_token(url)),
{
    lemma_metadata_names_type(media_at(url));
}

/// The arguments of `SetAVTransportURI` hold the item description in a form
/// in which nothing ends or opens markup.
pub proof fn lemma_set_uri_metadata_is_inert(m: MediaView)
    ensures
        set_uri_text(m) == SET_URI_OPEN@ + m.url + SET_URI_METADATA@ + escaped(metadata_text(m))
            + SET_URI_CLOSE@,
        forall|i: int|
            0 <= i < escaped(metadata_text(m)).len() ==> !is_markup(
                #[trigger] escaped(metadata_text(m))[i],
            ),
{
    lemma_escaped_is_inert(metadata_text(m));
}

} // verus!
