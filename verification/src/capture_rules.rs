use vstd::prelude::*;

verus! {

/// Name for what `str::to_lowercase` returns on a string with these characters: its
/// lowercase form under Unicode's case mapping.
pub uninterp spec fn lowercase_of(s: Seq<char>) -> Seq<char>;

/// ASCII lowercase of one character: 'A'..='Z' become 'a'..='z'; every other
/// character is kept.
pub open spec fn ascii_lower(c: char) -> char {
    if 'A' <= c && c <= 'Z' {
        ((c as u32) + 32) as char
    } else {
        c
    }
}

/// Each character of `s` lowercased as ASCII.
pub open spec fn ascii_lowercase(s: Seq<char>) -> Seq<char> {
    s.map_values(|c: char| ascii_lower(c))
}

/// Calls `str::to_lowercase`.  Trusted: the result is the lowercase form named by
/// `lowercase_of`, a function of the characters of `s` alone; on a string of ASCII
/// characters it is the string with each character lowercased in place (Unicode's
/// lowercase mapping of an ASCII character is its ASCII lowercase).  Nothing more is
/// said of other strings (the mapping is Unicode's, and may change their length).
#[verifier::external_body]
fn to_lowercase(s: &str) -> (r: String)
    ensures
        r@ == lowercase_of(s@),
        vstd::utf8::is_ascii_chars(s@) ==> r@.len() == s@.len() && forall|i: int|
            0 <= i < s@.len() ==> #[trigger] r@[i] == ascii_lower(s@[i]),
{
    s.to_lowercase()
}

/// `needle` occurs in `hay` as a run of consecutive characters.
pub open spec fn contains_seq(hay: Seq<char>, needle: Seq<char>) -> bool {
    exists|i: int|
        0 <= i && i + needle.len() <= hay.len() && #[trigger] hay.subrange(i, i + needle.len())
            == needle
}

/// The characters of a string, in order.
fn chars_of(s: &str) -> (r: Vec<char>)
    ensures
        r@ == s@,
{
    let n = s.unicode_len();
    let mut out: Vec<char> = Vec::new();
    let mut i: usize = 0;
    while i < n
        invariant
            n == s@.len(),
            i <= n,
            out@ == s@.subrange(0, i as int),
        decreases n - i,
    {
        let c = s.get_char(i);
        out.push(c);
        i = i + 1;
        assert(out@ =~= s@.subrange(0, i as int));
    }
    assert(out@ =~= s@);
    out
}

/// Whether `hay[start..start + needle.len()]` equals `needle`.
fn matches_at(hay: &Vec<char>, needle: &Vec<char>, start: usize) -> (r: bool)
    requires
        start + needle@.len() <= hay@.len(),
    ensures
        r == (hay@.subrange(start as int, start + needle@.len()) == needle@),
{
    let m = needle.len();
    let n = hay.len();
    let mut k: usize = 0;
    while k < m
        invariant
            m == needle@.len(),
            start + m <= hay@.len(),
            n == hay@.len(),
            k <= m,
            forall|j: int| 0 <= j < k ==> hay@[start + j] == needle@[j],
        decreases m - k,
    {
        if hay[start + k] != needle[k] {
            assert(hay@.subrange(start as int, start + m)[k as int] != needle@[k as int]);
            return false;
        }
        k = k + 1;
    }
    assert(hay@.subrange(start as int, start + m) =~= needle@);
    true
}

/// Whether `needle` occurs in `hay`.
fn contains_chars(hay: &Vec<char>, needle: &Vec<char>) -> (r: bool)
    ensures
        r == contains_seq(hay@, needle@),
{
    if needle.len() > hay.len() {
        return false;
    }
    let last = hay.len() - needle.len();
    let mut i: usize = 0;
    loop
        invariant
            last + needle@.len() == hay@.len(),
            i <= last,
            forall|j: int|
                0 <= j < i ==> #[trigger] hay@.subrange(j, j + needle@.len()) != needle@,
        decreases last - i,
    {
        if matches_at(hay, needle, i) {
            return true;
        }
        if i == last {
            return false;
        }
        i = i + 1;
    }
}

/// The marker that an application identifier must contain, once lowercased, for its
/// windows to be captured.
pub open spec fn target_marker() -> Seq<char> {
    seq!['c', 'h', 'r', 'o', 'm', 'e']
}

/// The rule on a window's title and its application's identifier, already lowercased:
/// the title is not empty and the identifier contains "chrome".
pub open spec fn capture_rule(title: Seq<char>, lowercase_identifier: Seq<char>) -> bool {
    title.len() > 0 && contains_seq(lowercase_identifier, target_marker())
}

/// A window is captured when it has a title and its application's identifier,
/// lowercased, contains "chrome".
pub open spec fn is_capture_target_spec(title: Seq<char>, app_identifier: Seq<char>) -> bool {
    capture_rule(title, lowercase_of(app_identifier))
}

/// Applies the capture rule to a title and an identifier that has been lowercased.
pub fn matches_capture_rule(title: &str, lowercase_identifier: &str) -> (r: bool)
    ensures
        r == capture_rule(title@, lowercase_identifier@),
        r == (title@.len() > 0 && exists|i: int|
            0 <= i && i + 6 <= lowercase_identifier@.len() && #[trigger] lowercase_identifier@.subrange(
                i,
                i + 6,
            ) == seq!['c', 'h', 'r', 'o', 'm', 'e']),
{
    let hay = chars_of(lowercase_identifier);
    let needle: Vec<char> = vec!['c', 'h', 'r', 'o', 'm', 'e'];
    assert(needle@ =~= target_marker());
    let r = !title.is_empty() && contains_chars(&hay, &needle);
    proof {
        lemma_capture_rule_is_substring_match(title@, lowercase_identifier@);
    }
    r
}

/// The capture rule holds exactly when the title is not empty and "chrome" occurs
/// somewhere in the lowercased identifier: at its start, its end, or in between.
pub proof fn lemma_capture_rule_is_substring_match(title: Seq<char>, s: Seq<char>)
    ensures
        capture_rule(title, s) == (title.len() > 0 && exists|i: int|
            0 <= i && i + 6 <= s.len() && #[trigger] s.subrange(i, i + 6) == seq![
                'c',
                'h',
                'r',
                'o',
                'm',
                'e',
            ]),
{
    let chrome = seq!['c', 'h', 'r', 'o', 'm', 'e'];
    assert(target_marker() =~= chrome);
    assert(target_marker().len() == 6);
    if contains_seq(s, target_marker()) {
        let i = choose|i: int|
            0 <= i && i + target_marker().len() <= s.len() && #[trigger] s.subrange(
                i,
                i + target_marker().len(),
            ) == target_marker();
        assert(s.subrange(i, i + 6) == chrome);
    }
    if exists|i: int| 0 <= i && i + 6 <= s.len() && #[trigger] s.subrange(i, i + 6) == chrome {
        let i = choose|i: int| 0 <= i && i + 6 <= s.len() && #[trigger] s.subrange(i, i + 6) == chrome;
        assert(s.subrange(i, i + target_marker().len()) == target_marker());
    }
}

/// For any text before and after it, an identifier with "chrome" inside passes the
/// capture rule as soon as the title is not empty.
pub proof fn lemma_chrome_anywhere_matches(title: Seq<char>, before: Seq<char>, after: Seq<char>)
    requires
        title.len() > 0,
    ensures
        capture_rule(title, before + seq!['c', 'h', 'r', 'o', 'm', 'e'] + after),
{
    let chrome = seq!['c', 'h', 'r', 'o', 'm', 'e'];
    let s = before + chrome + after;
    assert(s.subrange(before.len() as int, before.len() as int + 6) =~= chrome);
    lemma_capture_rule_is_substring_match(title, s);
}

/// An untitled window never passes the capture rule, whatever its identifier.
pub proof fn lemma_untitled_never_matches(title: Seq<char>, s: Seq<char>)
    requires
        title.len() == 0,
    ensures
        !capture_rule(title, s),
{
}

/// "chrome" occurs in `id` when case is ignored for ASCII letters.
pub open spec fn has_chrome_ignoring_ascii_case(id: Seq<char>) -> bool {
    exists|i: int|
        0 <= i && i + 6 <= id.len() && #[trigger] ascii_lowercase(id.subrange(i, i + 6)) == seq!['c', 'h', 'r', 'o', 'm', 'e']
}

/// A run of six characters that lowercases to "chrome" ("Chrome", "CHROME", ...) makes
/// any identifier around it contain "chrome" ignoring ASCII case.
pub proof fn lemma_chrome_in_any_ascii_case(before: Seq<char>, word: Seq<char>, after: Seq<char>)
    requires
        word.len() == 6,
        ascii_lowercase(word) == seq!['c', 'h', 'r', 'o', 'm', 'e'],
    ensures
        has_chrome_ignoring_ascii_case(before + word + after),
{
    let id = before + word + after;
    assert(id.subrange(before.len() as int, before.len() as int + 6) =~= word);
}

/// Whether a window with this title, owned by the application with this identifier,
/// is one to capture.
pub fn is_capture_target(title: &str, app_identifier: &str) -> (r: bool)
    ensures
        r == is_capture_target_spec(title@, app_identifier@),
        vstd::utf8::is_ascii_chars(app_identifier@) ==> r == (title@.len() > 0
            && has_chrome_ignoring_ascii_case(app_identifier@)),
{
    let lowered = to_lowercase(app_identifier);
    let r = matches_capture_rule(title, lowered.as_str());
    proof {
        let id = app_identifier@;
        let low = lowered@;
        let chrome = seq!['c', 'h', 'r', 'o', 'm', 'e'];
        if vstd::utf8::is_ascii_chars(id) {
            assert forall|i: int| 0 <= i && i + 6 <= id.len() implies (#[trigger] low.subrange(
                i,
                i + 6,
            ) == chrome) == (ascii_lowercase(id.subrange(i, i + 6))
                == chrome) by {
                assert(low.subrange(i, i + 6) =~= ascii_lowercase(id.subrange(i, i + 6)));
            }
            if r {
                let i = choose|i: int|
                    0 <= i && i + 6 <= low.len() && #[trigger] low.subrange(i, i + 6) == chrome;
                assert(ascii_lowercase(id.subrange(i, i + 6)) == chrome);
            }
            if title@.len() > 0 && has_chrome_ignoring_ascii_case(id) {
                let i = choose|i: int|
                    0 <= i && i + 6 <= id.len() && #[trigger] ascii_lowercase(id.subrange(i, i + 6)) == chrome;
                assert(low.subrange(i, i + 6) == chrome);
            }
        }
    }
    r
}

/// A capturable window, by what the selection reads of it.
pub struct WindowInfo {
    pub title: String,
    pub app_identifier: String,
}

pub open spec fn window_is_target(w: WindowInfo) -> bool {
    is_capture_target_spec(w.title@, w.app_identifier@)
}

/// The position of the first window to capture, in the order the system lists them.
pub fn first_capture_target(windows: &Vec<WindowInfo>) -> (r: Option<usize>)
    ensures
        match r {
            Some(i) => i < windows@.len() && window_is_target(windows@[i as int]) && forall|j: int|
                0 <= j < i ==> !window_is_target(#[trigger] windows@[j]),
            None => forall|j: int| 0 <= j < windows@.len() ==> !window_is_target(#[trigger] windows@[j]),
        },
        r matches Some(i) ==> (vstd::utf8::is_ascii_chars(windows@[i as int].app_identifier@) ==> (
        windows@[i as int].title@.len() > 0 && has_chrome_ignoring_ascii_case(
            windows@[i as int].app_identifier@,
        ))),
        forall|j: int|
            0 <= j < windows@.len() && (r matches Some(i) ==> j < i) && vstd::utf8::is_ascii_chars(
                (#[trigger] windows@[j]).app_identifier@,
            ) ==> !(windows@[j].title@.len() > 0 && has_chrome_ignoring_ascii_case(
                windows@[j].app_identifier@,
            )),
{
    let n = windows.len();
    let mut i: usize = 0;
    while i < n
        invariant
            n == windows@.len(),
            i <= n,
            forall|j: int| 0 <= j < i ==> !window_is_target(#[trigger] windows@[j]),
            forall|j: int|
                0 <= j < i && vstd::utf8::is_ascii_chars((#[trigger] windows@[j]).app_identifier@)
                    ==> !(windows@[j].title@.len() > 0 && has_chrome_ignoring_ascii_case(
                    windows@[j].app_identifier@,
                )),
        decreases n - i,
    {
        let w = &windows[i];
        if is_capture_target(w.title.as_str(), w.app_identifier.as_str()) {
            return Some(i);
        }
        i = i + 1;
    }
    None
}

/// Pixel layouts in which a captured frame's bitmap can come.
#[derive(Clone, Copy, Debug, PartialEq, Eq)]
pub enum BitmapFormat {
    BgraUnorm8x4,
    ArgbUnormPacked2101010,
    RgbaF16x4,
    YCbCr,
}

impl BitmapFormat {
    /// The name under which the format is reported.
    pub fn name(&self) -> (r: &'static str)
        ensures
            r@ == match self {
                BitmapFormat::BgraUnorm8x4 => "BgraUnorm8x4"@,
                BitmapFormat::ArgbUnormPacked2101010 => "ArgbUnormPacked2101010"@,
                BitmapFormat::RgbaF16x4 => "RgbaF16x4"@,
                BitmapFormat::YCbCr => "YCbCr"@,
            },
    {
        match self {
            BitmapFormat::BgraUnorm8x4 => "BgraUnorm8x4",
            BitmapFormat::ArgbUnormPacked2101010 => "ArgbUnormPacked2101010",
            BitmapFormat::RgbaF16x4 => "RgbaF16x4",
            BitmapFormat::YCbCr => "YCbCr",
        }
    }
}

/// What the capture stream hands over, by what the routing reads of it.
#[derive(Clone, Copy, Debug, PartialEq, Eq)]
pub enum StreamEventKind {
    /// A video frame; its bitmap, or `None` where the bitmap could not be read.
    Video { bitmap: Option<BitmapFormat> },
    /// Any other event of the stream.
    Other,
    /// The stream reported an error.
    Failed,
}

/// What is done with a stream event.
#[derive(Clone, Copy, Debug, PartialEq, Eq)]
pub enum FrameAction {
    /// Hand the BGRA bitmap to the fullscreen node (as an sRGB BGRA texture).
    Display,
    /// Report that the frame came in a format that is not shown.
    ReportFormat(BitmapFormat),
    /// Report that the frame's bitmap could not be read.
    ReportBitmapError,
    /// Report the stream error.
    ReportStreamError,
    /// Nothing to do.
    Ignore,
}

pub open spec fn action_for(event: StreamEventKind) -> FrameAction {
    match event {
        StreamEventKind::Video { bitmap: Some(BitmapFormat::BgraUnorm8x4) } => FrameAction::Display,
        StreamEventKind::Video { bitmap: Some(f) } => FrameAction::ReportFormat(f),
        StreamEventKind::Video { bitmap: None } => FrameAction::ReportBitmapError,
        StreamEventKind::Other => FrameAction::Ignore,
        StreamEventKind::Failed => FrameAction::ReportStreamError,
    }
}

/// Only BGRA video frames reach the screen; every other event is reported or ignored.
pub proof fn lemma_only_bgra_frames_displayed(event: StreamEventKind)
    ensures
        (action_for(event) == FrameAction::Display) <==> (event == StreamEventKind::Video {
            bitmap: Some(BitmapFormat::BgraUnorm8x4),
        }),
{
}

/// Routes an event of the capture stream: only BGRA frames are displayed; other
/// formats, unreadable bitmaps and stream errors are reported; other events ignored.
pub fn route_stream_event(event: StreamEventKind) -> (r: FrameAction)
    ensures
        r == action_for(event),
{
    match event {
        StreamEventKind::Video { bitmap: Some(BitmapFormat::BgraUnorm8x4) } => FrameAction::Display,
        StreamEventKind::Video { bitmap: Some(f) } => FrameAction::ReportFormat(f),
        StreamEventKind::Video { bitmap: None } => FrameAction::ReportBitmapError,
        StreamEventKind::Other => FrameAction::Ignore,
        StreamEventKind::Failed => FrameAction::ReportStreamError,
    }
}

} // verus!
