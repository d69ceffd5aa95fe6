//! DaVinci Resolve hand-off: naming of staged clips, the FCPXML timeline
//! document (one timeline per reel), and matching rendered finals back to
//! reels by their `R####` code.

use vstd::prelude::*;
use vstd::string::StringSliceAdditionalSpecFns;

use crate::batches;
use crate::db::{Param, col_opt_int, col_opt_text, col_text, execute, query_one, query_opt, text};
use crate::json::{json_int, json_object1, json_string};
use crate::library::{extension_spec, file_name_spec, take_ext};
use crate::reels::{self, BlockView, ReelDetail};
use crate::text::{chars_of, concat2, concat3, dec, dec_int, dec_int_padded, lowercase, owned, push_char, push_dec, push_int_padded, str_eq, to_lower, to_upper, uppercase};
use crate::{CoreError, Result, activity, ids, invalid, not_found};

verus! {

pub const HANDOFF_DIR: &'static str = "02_HANDOFF";
pub const EXPORTS_DIR: &'static str = "03_EXPORTS";
pub const FINALS_DIR: &'static str = "04_FINALS";

/// Timeline frame rate.
pub const TIMELINE_FPS: i64 = 30;

/// Laid-out length, in seconds, of clips whose real duration is unknown.
pub const ASSUMED_CLIP_SECONDS: i64 = 60;

// ── reel codes in file names ─────────────────────────────────────

/// ASCII digit byte.
pub open spec fn is_digit_byte(b: u8) -> bool {
    48 <= b <= 57
}

/// `b[i..]` starts with `R` and four digits not followed by a fifth digit.
pub open spec fn code_at(b: Seq<u8>, i: int) -> bool {
    &&& 0 <= i
    &&& i + 4 < b.len()
    &&& b[i] == 82
    &&& is_digit_byte(b[i + 1])
    &&& is_digit_byte(b[i + 2])
    &&& is_digit_byte(b[i + 3])
    &&& is_digit_byte(b[i + 4])
    &&& !(i + 5 < b.len() && is_digit_byte(b[i + 5]))
}

/// The first reel code found in `b` at or after position `i`.
pub open spec fn reel_code_from(b: Seq<u8>, i: int) -> Option<Seq<char>>
    decreases b.len() - i,
{
    if i < 0 || i >= b.len() {
        None
    } else if code_at(b, i) {
        Some(
            seq![
                'R',
                b[i + 1] as char,
                b[i + 2] as char,
                b[i + 3] as char,
                b[i + 4] as char,
            ],
        )
    } else {
        reel_code_from(b, i + 1)
    }
}

/// A reel code found in a name is an `R` and four ASCII digits.
pub proof fn lemma_reel_code_shape(b: Seq<u8>, i: int)
    ensures
        reel_code_from(b, i) matches Some(c) ==> c.len() == 5 && c[0] == 'R' && forall|k: int|
            1 <= k < 5 ==> '0' <= #[trigger] c[k] && c[k] <= '9',
    decreases b.len() - i,
{
    if 0 <= i < b.len() && !code_at(b, i) {
        lemma_reel_code_shape(b, i + 1);
    }
}

/// Find `R####` anywhere in a filename: an `R` followed by exactly four ASCII
/// digits (a fifth digit disqualifies the match). The first match wins.
pub fn parse_reel_code(name: &str) -> (r: Option<String>)
    ensures
        r matches Some(code) ==> reel_code_from(name.spec_bytes(), 0) == Some(code@),
        r is None ==> reel_code_from(name.spec_bytes(), 0) is None,
{
    let b = name.as_bytes();
    let ghost bs = name.spec_bytes();
    let mut i: usize = 0;
    while i < b.len()
        invariant
            b@ == bs,
            bs == name.spec_bytes(),
            i <= b.len(),
            reel_code_from(bs, 0) == reel_code_from(bs, i as int),
        decreases b.len() - i,
    {
        if b[i] == 82u8 && b.len() - i > 4 {
            let d1 = b[i + 1];
            let d2 = b[i + 2];
            let d3 = b[i + 3];
            let d4 = b[i + 4];
            let all_digits = 48 <= d1 && d1 <= 57 && 48 <= d2 && d2 <= 57 && 48 <= d3 && d3 <= 57
                && 48 <= d4 && d4 <= 57;
            let fifth = i + 5 < b.len() && 48 <= b[i + 5] && b[i + 5] <= 57;
            if all_digits && !fifth {
                let mut s = String::new();
                push_char(&mut s, 'R');
                push_char(&mut s, d1 as char);
                push_char(&mut s, d2 as char);
                push_char(&mut s, d3 as char);
                push_char(&mut s, d4 as char);
                assert(code_at(bs, i as int));
                assert(s@ =~= reel_code_from(bs, i as int).unwrap());
                assert(reel_code_from(bs, 0) == Some(s@));
                return Some(s);
            }
        }
        assert(!code_at(bs, i as int));
        i += 1;
    }
    None
}

// ── FCPXML ───────────────────────────────────────────────────────

/// One character of a `file://` URL path: backslashes become slashes and
/// `%`, space, `#`, `?` are percent-encoded.
pub open spec fn url_char(c: char) -> Seq<char> {
    if c == '\\' {
        seq!['/']
    } else if c == '%' {
        seq!['%', '2', '5']
    } else if c == ' ' {
        seq!['%', '2', '0']
    } else if c == '#' {
        seq!['%', '2', '3']
    } else if c == '?' {
        seq!['%', '3', 'F']
    } else {
        seq![c]
    }
}

/// `url_char` applied to every character of `s`.
pub open spec fn url_path(s: Seq<char>) -> Seq<char>
    decreases s.len(),
{
    if s.len() == 0 {
        Seq::empty()
    } else {
        url_path(s.drop_last()) + url_char(s.last())
    }
}

/// The `file://localhost` URL of a path.
pub open spec fn file_url_spec(path: Seq<char>) -> Seq<char> {
    let enc = url_path(path);
    if enc.len() > 0 && enc[0] == '/' {
        "file://localhost"@ + enc
    } else {
        "file://localhost/"@ + enc
    }
}

proof fn lemma_url_path_first(s: Seq<char>)
    requires
        s.len() > 0,
    ensures
        url_path(s).len() > 0,
        url_path(s)[0] == url_char(s[0])[0],
    decreases s.len(),
{
    let c = s.last();
    assert(url_char(c).len() > 0);
    if s.len() > 1 {
        lemma_url_path_first(s.drop_last());
        assert(s.drop_last()[0] == s[0]);
    } else {
        assert(s.drop_last().len() == 0);
        assert(url_path(s.drop_last()) =~= Seq::<char>::empty());
        assert(url_path(s) =~= url_char(c));
    }
}

/// The `file://localhost` URL of a path (forward slashes, percent-encoded).
pub fn file_url(path: &str) -> (url: String)
    ensures
        url@ == file_url_spec(path@),
{
    let v = chars_of(path);
    let mut enc = String::new();
    let mut i: usize = 0;
    while i < v.len()
        invariant
            i <= v.len(),
            v@ == path@,
            enc@ == url_path(v@.take(i as int)),
        decreases v.len() - i,
    {
        let c = v[i];
        proof {
            assert(v@.take(i + 1).drop_last() =~= v@.take(i as int));
        }
        if c == '\\' {
            push_char(&mut enc, '/');
        } else if c == '%' {
            enc.append("%25");
            proof { reveal_strlit("%25"); }
        } else if c == ' ' {
            enc.append("%20");
            proof { reveal_strlit("%20"); }
        } else if c == '#' {
            enc.append("%23");
            proof { reveal_strlit("%23"); }
        } else if c == '?' {
            enc.append("%3F");
            proof { reveal_strlit("%3F"); }
        } else {
            push_char(&mut enc, c);
        }
        i += 1;
        assert(enc@ =~= url_path(v@.take(i as int)));
    }
    assert(v@.take(v.len() as int) =~= v@);
    let starts_slash = v.len() > 0 && (v[0] == '/' || v[0] == '\\');
    proof {
        if v.len() > 0 {
            lemma_url_path_first(v@);
        }
    }
    let mut url = if starts_slash {
        String::from_str("file://localhost")
    } else {
        String::from_str("file://localhost/")
    };
    url.append(enc.as_str());
    url
}

/// One character escaped for an XML attribute.
pub open spec fn xml_char(c: char) -> Seq<char> {
    if c == '&' {
        "&amp;"@
    } else if c == '<' {
        "&lt;"@
    } else if c == '>' {
        "&gt;"@
    } else if c == '"' {
        "&quot;"@
    } else {
        seq![c]
    }
}

/// `s` escaped for an XML attribute (`&`, `<`, `>`, `"`).
pub open spec fn xml_escape_spec(s: Seq<char>) -> Seq<char>
    decreases s.len(),
{
    if s.len() == 0 {
        Seq::empty()
    } else {
        xml_escape_spec(s.drop_last()) + xml_char(s.last())
    }
}

/// Appends `s` escaped for an XML attribute.
pub fn push_xml_escaped(out: &mut String, s: &str)
    ensures
        final(out)@ == old(out)@ + xml_escape_spec(s@),
{
    let v = chars_of(s);
    let mut i: usize = 0;
    while i < v.len()
        invariant
            i <= v.len(),
            v@ == s@,
            out@ == old(out)@ + xml_escape_spec(v@.take(i as int)),
        decreases v.len() - i,
    {
        let c = v[i];
        proof {
            assert(v@.take(i + 1).drop_last() =~= v@.take(i as int));
        }
        if c == '&' {
            out.append("&amp;");
        } else if c == '<' {
            out.append("&lt;");
        } else if c == '>' {
            out.append("&gt;");
        } else if c == '"' {
            out.append("&quot;");
        } else {
            push_char(out, c);
        }
        i += 1;
        assert(out@ =~= old(out)@ + xml_escape_spec(v@.take(i as int)));
    }
    assert(v@.take(v.len() as int) =~= v@);
}

/// `s` escaped for an XML attribute.
pub fn xml_escape(s: &str) -> (r: String)
    ensures
        r@ == xml_escape_spec(s@),
{
    let mut r = String::new();
    push_xml_escaped(&mut r, s);
    assert(r@ =~= xml_escape_spec(s@));
    r
}

/// Round-half-away-from-zero of `x / 1000`.
pub open spec fn div1000_round(x: int) -> int {
    if x >= 0 {
        (x + 500) / 1000
    } else {
        -((-x + 500) / 1000)
    }
}

/// Timeline frames for a clip duration (unknown durations count as
/// `ASSUMED_CLIP_SECONDS`), rounded to the nearest frame.
pub open spec fn frames_spec(duration_ms: Option<i64>) -> int {
    let ms: int = match duration_ms {
        Some(d) => d as int,
        None => 60000,
    };
    div1000_round(ms * 30)
}

/// Bound under which the millisecond-to-frame rounding is exact.
pub open spec fn frames_in_range(duration_ms: Option<i64>) -> bool {
    match duration_ms {
        Some(d) => -8796093022208000 < d * 30 < 8796093022208000,
        None => true,
    }
}

/// Timeline frames for a clip duration, rounded to the nearest frame.
pub fn frames(duration_ms: Option<i64>) -> (f: i64)
    requires
        frames_in_range(duration_ms),
    ensures
        f == frames_spec(duration_ms),
{
    let ms: i64 = match duration_ms {
        Some(d) => d,
        None => 60000,
    };
    let x: i64 = ms * 30;
    if x >= 0 {
        (x + 500) / 1000
    } else {
        -((-x + 500) / 1000)
    }
}

/// Rational seconds aligned to the frame rate: N frames → "N*100/3000s".
pub open spec fn rational_spec(frames: int) -> Seq<char> {
    dec_int(frames * 100) + "/3000s"@
}

/// Appends the rational-seconds form of `frames`.
pub fn push_rational(out: &mut String, frames: i64)
    requires
        -92233720368547758 <= frames <= 92233720368547758,
    ensures
        final(out)@ == old(out)@ + rational_spec(frames as int),
{
    let n: i64 = frames * 100;
    if n < 0 {
        push_char(out, '-');
        let m: u64 = (-(n as i128)) as u64;
        push_dec(out, m);
    } else {
        push_dec(out, n as u64);
    }
    out.append("/3000s");
    assert(final(out)@ =~= old(out)@ + rational_spec(frames as int));
}

/// Rational seconds aligned to the frame rate: N frames → "N*100/3000s".
pub fn rational(frames: i64) -> (r: String)
    requires
        -92233720368547758 <= frames <= 92233720368547758,
    ensures
        r@ == rational_spec(frames as int),
{
    let mut r = String::new();
    push_rational(&mut r, frames);
    assert(r@ =~= rational_spec(frames as int));
    r
}


// ── the timeline document ────────────────────────────────────────

/// One clip staged for a reel's timeline.
#[derive(Clone, Debug)]
pub struct StagedClip {
    /// Position in the reel's script, from 1.
    pub ordinal: usize,
    /// The block kind in upper case (HOOK, BODY, CTA, SEGMENT).
    pub kind: String,
    pub clip_key: String,
    /// The take's asset, its storage root and its path there.
    pub asset_id: String,
    pub src_root: String,
    pub src_rel: String,
    /// `{nn}_{KIND}_{clip_key}.{ext}` inside the reel's hand-off folder.
    pub dest_name: String,
    pub duration_ms: Option<i64>,
    /// The take's file name, which gives the extension.
    pub filename: String,
}

/// A reel ready for hand-off with its clips in script order.
#[derive(Clone, Debug)]
pub struct ReelClips {
    pub detail: ReelDetail,
    pub clips: Vec<StagedClip>,
}

/// `b` inside the directory `a`, '/'-separated (`Path::join` for a relative `b`).
pub open spec fn path_join_spec(a: Seq<char>, b: Seq<char>) -> Seq<char> {
    if a.len() == 0 {
        b
    } else if a.last() == '/' {
        a + b
    } else {
        a + "/"@ + b
    }
}

/// `b` inside the directory `a`.
pub fn path_join(a: &str, b: &str) -> (r: String)
    ensures
        r@ == path_join_spec(a@, b@),
{
    let v = chars_of(a);
    if v.len() == 0 {
        owned(b)
    } else if v[v.len() - 1] == '/' {
        concat2(a, b)
    } else {
        concat3(a, "/", b)
    }
}

/// The hand-off folder name of a reel: "{code}_{slug}".
pub open spec fn reel_folder_spec(code: Seq<char>, slug: Seq<char>) -> Seq<char> {
    code + "_"@ + slug
}

/// `s` without its trailing characters other than '.'.
pub open spec fn drop_trailing_non_dots(s: Seq<char>) -> Seq<char>
    decreases s.len(),
{
    if s.len() > 0 && s.last() != '.' {
        drop_trailing_non_dots(s.drop_last())
    } else {
        s
    }
}

/// `s` without its trailing '.' characters.
pub open spec fn drop_trailing_dots(s: Seq<char>) -> Seq<char>
    decreases s.len(),
{
    if s.len() > 0 && s.last() == '.' {
        drop_trailing_dots(s.drop_last())
    } else {
        s
    }
}

/// A clip's title on the timeline: its file name without the extension,
/// escaped for XML.
pub open spec fn clip_title_spec(dest_name: Seq<char>) -> Seq<char> {
    xml_escape_spec(drop_trailing_dots(drop_trailing_non_dots(dest_name)))
}

fn clip_title(dest_name: &str) -> (r: String)
    ensures
        r@ == clip_title_spec(dest_name@),
{
    let v = chars_of(dest_name);
    let mut k: usize = v.len();
    assert(v@.subrange(0, k as int) =~= v@);
    while k > 0 && v[k - 1] != '.'
        invariant
            k <= v.len(),
            v@ == dest_name@,
            drop_trailing_non_dots(dest_name@) == drop_trailing_non_dots(v@.subrange(0, k as int)),
        decreases k,
    {
        assert(v@.subrange(0, k as int).drop_last() =~= v@.subrange(0, k - 1));
        k -= 1;
    }
    let ghost mid = v@.subrange(0, k as int);
    assert(drop_trailing_non_dots(mid) == mid);
    while k > 0 && v[k - 1] == '.'
        invariant
            k <= v.len(),
            v@ == dest_name@,
            drop_trailing_dots(mid) == drop_trailing_dots(v@.subrange(0, k as int)),
        decreases k,
    {
        assert(v@.subrange(0, k as int).drop_last() =~= v@.subrange(0, k - 1));
        k -= 1;
    }
    assert(drop_trailing_dots(v@.subrange(0, k as int)) == v@.subrange(0, k as int));
    let mut stem = String::new();
    crate::text::push_range(&mut stem, &v, 0, k);
    xml_escape(stem.as_str())
}

/// The format line of the document: vertical 1080×1920 at 30 fps.
pub open spec fn format_line() -> Seq<char> {
    "    <format id=\"r1\" name=\"FFVideoFormat1080x1920p30\" frameDuration=\"100/3000s\" width=\"1080\" height=\"1920\"/>\n"@
}

/// The resource line of one clip; the file URL is escaped for the attribute.
pub open spec fn asset_line(id: int, title: Seq<char>, url: Seq<char>, f: int) -> Seq<char> {
    "    <asset id=\"a"@ + dec_int(id) + "\" name=\""@ + title + "\" src=\""@ + xml_escape_spec(url)
        + "\" start=\"0s\" duration=\""@ + rational_spec(f)
        + "\" hasVideo=\"1\" hasAudio=\"1\" format=\"r1\"/>\n"@
}

/// The timeline line of one clip, placed at `offset`.
pub open spec fn clip_line(id: int, title: Seq<char>, offset: int, f: int) -> Seq<char> {
    "            <asset-clip ref=\"a"@ + dec_int(id) + "\" offset=\""@ + rational_spec(offset)
        + "\" name=\""@ + title + "\" start=\"0s\" duration=\""@ + rational_spec(f) + "\"/>\n"@
}

/// The resource lines, timeline lines and total length (in frames) of a
/// reel's clips laid end to end; clip `j` gets asset id `first_id + j`.
pub open spec fn reel_acc(folder: Seq<char>, clips: Seq<StagedClip>, first_id: int) -> (Seq<char>, Seq<
    char,
>, int)
    decreases clips.len(),
{
    if clips.len() == 0 {
        (Seq::empty(), Seq::empty(), 0)
    } else {
        let (a, s, off) = reel_acc(folder, clips.drop_last(), first_id);
        let c = clips.last();
        let id = first_id + clips.len() - 1;
        let f = frames_spec(c.duration_ms);
        let title = clip_title_spec(c.dest_name@);
        let url = file_url_spec(path_join_spec(folder, c.dest_name@));
        (a + asset_line(id, title, url, f), s + clip_line(id, title, off, f), off + f)
    }
}

/// One reel's timeline.
pub open spec fn project_block(code: Seq<char>, slug: Seq<char>, spine: Seq<char>, total: int) -> Seq<char> {
    "      <project name=\""@ + xml_escape_spec(code) + "_"@ + xml_escape_spec(slug)
        + "\">\n        <sequence format=\"r1\" duration=\""@ + rational_spec(total)
        + "\" tcStart=\"0s\" tcFormat=\"NDF\">\n          <spine>\n"@ + spine
        + "          </spine>\n        </sequence>\n      </project>\n"@
}

/// The clip resources and the timelines of the reels in order, and how many
/// clips they hold; asset ids run on across reels from 2.
pub open spec fn doc_acc(root: Seq<char>, reels: Seq<ReelClips>) -> (Seq<char>, Seq<char>, int)
    decreases reels.len(),
{
    if reels.len() == 0 {
        (Seq::empty(), Seq::empty(), 0)
    } else {
        let (res, proj, n) = doc_acc(root, reels.drop_last());
        let r = reels.last();
        let folder = path_join_spec(root, reel_folder_spec(r.detail.code@, r.detail.slug@));
        let (a, s, total) = reel_acc(folder, r.clips@, 2 + n);
        (res + a, proj + project_block(r.detail.code@, r.detail.slug@, s, total), n + r.clips.len())
    }
}

/// Lines one after the other.
pub open spec fn concat_lines(ls: Seq<Seq<char>>) -> Seq<char>
    decreases ls.len(),
{
    if ls.len() == 0 {
        Seq::empty()
    } else {
        concat_lines(ls.drop_last()) + ls.last()
    }
}

/// The sum of the frame counts of a reel's clips.
pub open spec fn total_frames(clips: Seq<StagedClip>) -> int
    decreases clips.len(),
{
    if clips.len() == 0 {
        0
    } else {
        total_frames(clips.drop_last()) + frames_spec(clips.last().duration_ms)
    }
}

/// The timeline line of clip `j` of a reel: it starts where the clips before
/// it end, at the sum of their frame counts, and lasts its own frame count.
pub open spec fn timeline_entry(clips: Seq<StagedClip>, first_id: int, j: int) -> Seq<char> {
    clip_line(
        first_id + j,
        clip_title_spec(clips[j].dest_name@),
        total_frames(clips.take(j)),
        frames_spec(clips[j].duration_ms),
    )
}

/// A reel's timeline: its clips laid end to end in order.
pub open spec fn reel_timeline(clips: Seq<StagedClip>, first_id: int) -> Seq<char> {
    concat_lines(Seq::new(clips.len(), |j: int| timeline_entry(clips, first_id, j)))
}

/// Clips are laid end to end: in a reel's timeline, clip `j` starts at the
/// sum of the frame counts of clips `0..j`, and the reel lasts the sum of all
/// its clips' frame counts.
pub proof fn lemma_clips_end_to_end(folder: Seq<char>, clips: Seq<StagedClip>, first_id: int)
    ensures
        reel_acc(folder, clips, first_id).1 == reel_timeline(clips, first_id),
        reel_acc(folder, clips, first_id).2 == total_frames(clips),
    decreases clips.len(),
{
    let n = clips.len() as int;
    let s = Seq::new(clips.len(), |j: int| timeline_entry(clips, first_id, j));
    if n == 0 {
        assert(s =~= Seq::<Seq<char>>::empty());
    } else {
        let pre = clips.drop_last();
        lemma_clips_end_to_end(folder, pre, first_id);
        let sp = Seq::new(pre.len(), |j: int| timeline_entry(pre, first_id, j));
        assert forall|j: int| 0 <= j < n - 1 implies #[trigger] s.drop_last()[j] == sp[j] by {
            assert(pre[j] == clips[j]);
            assert(pre.take(j) =~= clips.take(j));
        }
        assert(s.drop_last() =~= sp);
        assert(clips.take(n - 1) =~= pre);
        assert(s.last() == timeline_entry(clips, first_id, n - 1));
    }
}

/// Reel `k`'s timeline in the document: its clips laid end to end, asset ids
/// running on from 2 across the reels before it.
pub open spec fn project_entry(reels: Seq<ReelClips>, k: int) -> Seq<char> {
    project_block(
        reels[k].detail.code@,
        reels[k].detail.slug@,
        reel_timeline(reels[k].clips@, 2 + clip_count(reels.take(k))),
        total_frames(reels[k].clips@),
    )
}

/// The reels' timelines, one after the other.
pub open spec fn document_timelines(reels: Seq<ReelClips>) -> Seq<char> {
    concat_lines(Seq::new(reels.len(), |k: int| project_entry(reels, k)))
}

/// The hand-off document holds one timeline per reel, in order, each with
/// its clips laid end to end (clip `j` starts at the sum of the frame counts
/// of clips `0..j`; the sequence lasts the sum of all its clips' frames).
pub proof fn lemma_document_timelines(root: Seq<char>, reels: Seq<ReelClips>)
    ensures
        doc_acc(root, reels).1 == document_timelines(reels),
        doc_acc(root, reels).2 == clip_count(reels),
    decreases reels.len(),
{
    let n = reels.len() as int;
    let s = Seq::new(reels.len(), |k: int| project_entry(reels, k));
    if n == 0 {
        assert(s =~= Seq::<Seq<char>>::empty());
    } else {
        let pre = reels.drop_last();
        lemma_document_timelines(root, pre);
        let r = reels.last();
        let folder = path_join_spec(root, reel_folder_spec(r.detail.code@, r.detail.slug@));
        lemma_clips_end_to_end(folder, r.clips@, 2 + doc_acc(root, pre).2);
        let sp = Seq::new(pre.len(), |k: int| project_entry(pre, k));
        assert forall|k: int| 0 <= k < n - 1 implies #[trigger] s.drop_last()[k] == sp[k] by {
            assert(pre[k] == reels[k]);
            assert(pre.take(k) =~= reels.take(k));
        }
        assert(s.drop_last() =~= sp);
        assert(reels.take(n - 1) =~= pre);
        assert(s.last() == project_entry(reels, n - 1));
    }
}

/// The FCPXML 1.8 document of a hand-off: one event named after the batch,
/// one timeline per reel with its clips laid end to end in script order.
pub open spec fn fcpxml_spec(batch_code: Seq<char>, root: Seq<char>, reels: Seq<ReelClips>) -> Seq<char> {
    let (res, proj, _n) = doc_acc(root, reels);
    "<?xml version=\"1.0\" encoding=\"UTF-8\"?>\n<!DOCTYPE fcpxml>\n<fcpxml version=\"1.8\">\n  <resources>\n"@
        + format_line() + res + "  </resources>\n  <library>\n    <event name=\""@
        + xml_escape_spec(batch_code) + "\">\n"@ + proj + "    </event>\n  </library>\n</fcpxml>\n"@
}

/// `doc` is `mid` with `before` in front and `after` behind.
pub open spec fn surrounds(doc: Seq<char>, before: Seq<char>, mid: Seq<char>, after: Seq<char>) -> bool {
    doc == before + mid + after
}

/// The hand-off document built by `build_fcpxml` holds the reels'
/// timelines, one after the other, each with its clips laid end to end.
pub proof fn lemma_fcpxml_holds_timelines(batch_code: Seq<char>, root: Seq<char>, reels: Seq<ReelClips>)
    ensures
        exists|before: Seq<char>, after: Seq<char>|
            #[trigger] surrounds(
                fcpxml_spec(batch_code, root, reels),
                before,
                document_timelines(reels),
                after,
            ),
{
    lemma_document_timelines(root, reels);
    let (res, proj, _n) = doc_acc(root, reels);
    let before = "<?xml version=\"1.0\" encoding=\"UTF-8\"?>\n<!DOCTYPE fcpxml>\n<fcpxml version=\"1.8\">\n  <resources>\n"@
        + format_line() + res + "  </resources>\n  <library>\n    <event name=\""@ + xml_escape_spec(batch_code)
        + "\">\n"@;
    let after = "    </event>\n  </library>\n</fcpxml>\n"@;
    assert(fcpxml_spec(batch_code, root, reels) == before + proj + after);
    assert(surrounds(fcpxml_spec(batch_code, root, reels), before, proj, after));
}

/// The sum of the clips' frame counts in absolute value.
pub open spec fn abs_frames(clips: Seq<StagedClip>) -> int
    decreases clips.len(),
{
    if clips.len() == 0 {
        0
    } else {
        let f = frames_spec(clips.last().duration_ms);
        abs_frames(clips.drop_last()) + (if f < 0 { -f } else { f })
    }
}

/// The largest frame count whose rational form the timeline can write.
pub open spec fn max_timeline_frames() -> int {
    92233720368547758
}

/// Every clip of a reel has a duration the frame rounding handles, and the
/// reel's length fits the timeline's arithmetic.
pub open spec fn reel_fits(clips: Seq<StagedClip>) -> bool {
    &&& forall|j: int| 0 <= j < clips.len() ==> frames_in_range(#[trigger] clips[j].duration_ms)
    &&& abs_frames(clips) <= max_timeline_frames()
}

/// The total number of clips.
pub open spec fn clip_count(reels: Seq<ReelClips>) -> int
    decreases reels.len(),
{
    if reels.len() == 0 {
        0
    } else {
        clip_count(reels.drop_last()) + reels.last().clips.len()
    }
}

/// The document's arithmetic cannot overflow for these reels.
pub open spec fn fcpxml_fits_spec(reels: Seq<ReelClips>) -> bool {
    &&& forall|r: int| 0 <= r < reels.len() ==> reel_fits(#[trigger] reels[r].clips@)
    &&& clip_count(reels) < 0x4000_0000_0000_0000
}

proof fn lemma_abs_frames_prefix(clips: Seq<StagedClip>, j: int)
    requires
        0 <= j <= clips.len(),
    ensures
        abs_frames(clips.take(j)) <= abs_frames(clips),
        abs_frames(clips.take(j)) >= 0,
    decreases clips.len(),
{
    if j < clips.len() {
        assert(clips.drop_last().take(j) =~= clips.take(j));
        lemma_abs_frames_prefix(clips.drop_last(), j);
    } else {
        assert(clips.take(j) =~= clips);
        lemma_abs_frames_nonneg(clips);
    }
}

proof fn lemma_abs_frames_nonneg(clips: Seq<StagedClip>)
    ensures
        abs_frames(clips) >= 0,
    decreases clips.len(),
{
    if clips.len() > 0 {
        lemma_abs_frames_nonneg(clips.drop_last());
    }
}

proof fn lemma_clip_count_prefix(reels: Seq<ReelClips>, r: int)
    requires
        0 <= r <= reels.len(),
    ensures
        0 <= clip_count(reels.take(r)) <= clip_count(reels),
    decreases reels.len(),
{
    if r < reels.len() {
        assert(reels.drop_last().take(r) =~= reels.take(r));
        lemma_clip_count_prefix(reels.drop_last(), r);
    } else {
        assert(reels.take(r) =~= reels);
        lemma_clip_count_nonneg(reels);
    }
}

proof fn lemma_clip_count_nonneg(reels: Seq<ReelClips>)
    ensures
        clip_count(reels) >= 0,
    decreases reels.len(),
{
    if reels.len() > 0 {
        lemma_clip_count_nonneg(reels.drop_last());
    }
}

/// Whether the timeline arithmetic fits these reels (see `fcpxml_fits_spec`);
/// the document cannot be written otherwise.
pub fn fcpxml_fits(reels: &[ReelClips]) -> (b: bool)
    ensures
        b == fcpxml_fits_spec(reels@),
{
    let mut total: u64 = 0;
    let mut r: usize = 0;
    assert(reels@.take(0) =~= Seq::<ReelClips>::empty());
    while r < reels.len()
        invariant
            r <= reels.len(),
            total as int == clip_count(reels@.take(r as int)),
            total < 0x4000_0000_0000_0000,
            forall|q: int| 0 <= q < r ==> reel_fits(#[trigger] reels@[q].clips@),
        decreases reels.len() - r,
    {
        let clips = &reels[r].clips;
        let ghost cs = clips@;
        let mut sum: i128 = 0;
        let mut j: usize = 0;
        assert(cs.take(0) =~= Seq::<StagedClip>::empty());
        while j < clips.len()
            invariant
                j <= clips.len(),
                cs == clips@,
                r < reels.len(),
                cs == reels@[r as int].clips@,
                sum as int == abs_frames(cs.take(j as int)),
                sum <= max_timeline_frames(),
                forall|k: int| 0 <= k < j ==> frames_in_range(#[trigger] cs[k].duration_ms),
            decreases clips.len() - j,
        {
            let d = clips[j].duration_ms;
            let ok = match d {
                Some(x) => -293203100740266 <= x && x <= 293203100740266,
                None => true,
            };
            if !ok {
                proof {
                    assert(!frames_in_range(cs[j as int].duration_ms));
                    assert(!reel_fits(reels@[r as int].clips@));
                }
                return false;
            }
            let f = frames(d);
            let a: i128 = if f < 0 { -(f as i128) } else { f as i128 };
            assert(cs.take(j + 1).drop_last() =~= cs.take(j as int));
            if sum + a > 92233720368547758 {
                proof {
                    lemma_abs_frames_prefix(cs, j + 1);
                    assert(!reel_fits(reels@[r as int].clips@));
                }
                return false;
            }
            sum = sum + a;
            j += 1;
        }
        assert(cs.take(j as int) =~= cs);
        assert(reel_fits(reels@[r as int].clips@));
        let n = clips.len() as u64;
        if n >= 0x4000_0000_0000_0000 - total {
            proof {
                assert(reels@.take(r + 1).drop_last() =~= reels@.take(r as int));
                lemma_clip_count_prefix(reels@, r + 1);
            }
            return false;
        }
        assert(reels@.take(r + 1).drop_last() =~= reels@.take(r as int));
        total = total + n;
        r += 1;
    }
    assert(reels@.take(r as int) =~= reels@);
    true
}

fn push_dec_int(out: &mut String, n: i64)
    ensures
        final(out)@ == old(out)@ + dec_int(n as int),
{
    crate::text::push_int(out, n);
}

fn push_asset_line(out: &mut String, id: i64, title: &str, url: &str, f: i64)
    requires
        -max_timeline_frames() <= f <= max_timeline_frames(),
    ensures
        final(out)@ == old(out)@ + asset_line(id as int, title@, url@, f as int),
{
    out.append("    <asset id=\"a");
    push_dec_int(out, id);
    out.append("\" name=\"");
    out.append(title);
    out.append("\" src=\"");
    push_xml_escaped(out, url);
    out.append("\" start=\"0s\" duration=\"");
    push_rational(out, f);
    out.append("\" hasVideo=\"1\" hasAudio=\"1\" format=\"r1\"/>\n");
    assert(final(out)@ =~= old(out)@ + asset_line(id as int, title@, url@, f as int));
}

fn push_clip_line(out: &mut String, id: i64, title: &str, offset: i64, f: i64)
    requires
        -max_timeline_frames() <= f <= max_timeline_frames(),
        -max_timeline_frames() <= offset <= max_timeline_frames(),
    ensures
        final(out)@ == old(out)@ + clip_line(id as int, title@, offset as int, f as int),
{
    out.append("            <asset-clip ref=\"a");
    push_dec_int(out, id);
    out.append("\" offset=\"");
    push_rational(out, offset);
    out.append("\" name=\"");
    out.append(title);
    out.append("\" start=\"0s\" duration=\"");
    push_rational(out, f);
    out.append("\"/>\n");
    assert(final(out)@ =~= old(out)@ + clip_line(id as int, title@, offset as int, f as int));
}

/// The resource lines, timeline lines and length of one reel (see `reel_acc`).
fn reel_parts(folder: &str, clips: &Vec<StagedClip>, first_id: u64) -> (r: (String, String, i64))
    requires
        reel_fits(clips@),
        first_id + clips.len() < 0x7fff_ffff_ffff_ffff,
    ensures
        r.0@ == reel_acc(folder@, clips@, first_id as int).0,
        r.1@ == reel_acc(folder@, clips@, first_id as int).1,
        r.2 as int == reel_acc(folder@, clips@, first_id as int).2,
{
    let ghost cs = clips@;
    let mut assets = String::new();
    let mut spine = String::new();
    let mut offset: i64 = 0;
    let mut j: usize = 0;
    assert(cs.take(0) =~= Seq::<StagedClip>::empty());
    while j < clips.len()
        invariant
            j <= clips.len(),
            cs == clips@,
            reel_fits(cs),
            first_id + clips.len() < 0x7fff_ffff_ffff_ffff,
            assets@ == reel_acc(folder@, cs.take(j as int), first_id as int).0,
            spine@ == reel_acc(folder@, cs.take(j as int), first_id as int).1,
            offset as int == reel_acc(folder@, cs.take(j as int), first_id as int).2,
            -abs_frames(cs.take(j as int)) <= offset <= abs_frames(cs.take(j as int)),
        decreases clips.len() - j,
    {
        let c = &clips[j];
        assert(frames_in_range(cs[j as int].duration_ms));
        let f = frames(c.duration_ms);
        proof {
            assert(cs.take(j + 1).drop_last() =~= cs.take(j as int));
            assert(cs.take(j + 1).last() == cs[j as int]);
            lemma_abs_frames_prefix(cs, j + 1);
        }
        let id: i64 = (first_id + j as u64) as i64;
        let title = clip_title(c.dest_name.as_str());
        let url = file_url(path_join(folder, c.dest_name.as_str()).as_str());
        push_asset_line(&mut assets, id, title.as_str(), url.as_str(), f);
        push_clip_line(&mut spine, id, title.as_str(), offset, f);
        offset = offset + f;
        j += 1;
    }
    assert(cs.take(j as int) =~= cs);
    (assets, spine, offset)
}

/// The FCPXML 1.8 document of a hand-off (see `fcpxml_spec`). DaVinci
/// Resolve: File ▸ Import ▸ Timeline.
#[verifier::rlimit(30)]
#[verifier::spinoff_prover]
pub fn build_fcpxml(batch_code: &str, handoff_root: &str, reels: &[ReelClips]) -> (xml: String)
    requires
        fcpxml_fits_spec(reels@),
    ensures
        xml@ == fcpxml_spec(batch_code@, handoff_root@, reels@),
        exists|before: Seq<char>, after: Seq<char>| #[trigger] surrounds(xml@, before, document_timelines(reels@), after),
{
    proof {
        lemma_fcpxml_holds_timelines(batch_code@, handoff_root@, reels@);
    }
    let mut resources = String::new();
    let mut projects = String::new();
    let mut count: u64 = 0;
    let mut r: usize = 0;
    assert(reels@.take(0) =~= Seq::<ReelClips>::empty());
    while r < reels.len()
        invariant
            r <= reels.len(),
            fcpxml_fits_spec(reels@),
            resources@ == doc_acc(handoff_root@, reels@.take(r as int)).0,
            projects@ == doc_acc(handoff_root@, reels@.take(r as int)).1,
            count as int == doc_acc(handoff_root@, reels@.take(r as int)).2,
            count as int == clip_count(reels@.take(r as int)),
        decreases reels.len() - r,
    {
        let rc = &reels[r];
        proof {
            assert(reels@.take(r + 1).drop_last() =~= reels@.take(r as int));
            assert(reels@.take(r + 1).last() == reels@[r as int]);
            lemma_clip_count_prefix(reels@, r + 1);
            assert(reel_fits(reels@[r as int].clips@));
        }
        let folder = path_join(
            handoff_root,
            concat3(rc.detail.code.as_str(), "_", rc.detail.slug.as_str()).as_str(),
        );
        let (assets, spine, total) = reel_parts(folder.as_str(), &rc.clips, count + 2);
        let ghost p0 = projects@;
        resources.append(assets.as_str());
        projects.append("      <project name=\"");
        push_xml_escaped(&mut projects, rc.detail.code.as_str());
        projects.append("_");
        push_xml_escaped(&mut projects, rc.detail.slug.as_str());
        projects.append("\">\n        <sequence format=\"r1\" duration=\"");
        assert(-max_timeline_frames() <= total <= max_timeline_frames()) by {
            lemma_reel_total_bound(folder@, rc.clips@, count + 2);
        }
        push_rational(&mut projects, total);
        projects.append("\" tcStart=\"0s\" tcFormat=\"NDF\">\n          <spine>\n");
        projects.append(spine.as_str());
        projects.append("          </spine>\n        </sequence>\n      </project>\n");
        proof {
            assert(projects@ =~= p0 + project_block(rc.detail.code@, rc.detail.slug@, spine@, total as int));
        }
        count = count + rc.clips.len() as u64;
        r += 1;
    }
    assert(reels@.take(r as int) =~= reels@);
    let mut xml = String::from_str(
        "<?xml version=\"1.0\" encoding=\"UTF-8\"?>\n<!DOCTYPE fcpxml>\n<fcpxml version=\"1.8\">\n  <resources>\n",
    );
    xml.append(
        "    <format id=\"r1\" name=\"FFVideoFormat1080x1920p30\" frameDuration=\"100/3000s\" width=\"1080\" height=\"1920\"/>\n",
    );
    xml.append(resources.as_str());
    xml.append("  </resources>\n  <library>\n    <event name=\"");
    push_xml_escaped(&mut xml, batch_code);
    xml.append("\">\n");
    xml.append(projects.as_str());
    xml.append("    </event>\n  </library>\n</fcpxml>\n");
    assert(xml@ =~= fcpxml_spec(batch_code@, handoff_root@, reels@));
    xml
}

proof fn lemma_reel_total_bound(folder: Seq<char>, clips: Seq<StagedClip>, first_id: int)
    requires
        reel_fits(clips),
    ensures
        -max_timeline_frames() <= reel_acc(folder, clips, first_id).2 <= max_timeline_frames(),
{
    lemma_reel_total_abs(folder, clips, first_id);
}

proof fn lemma_reel_total_abs(folder: Seq<char>, clips: Seq<StagedClip>, first_id: int)
    ensures
        -abs_frames(clips) <= reel_acc(folder, clips, first_id).2 <= abs_frames(clips),
    decreases clips.len(),
{
    if clips.len() > 0 {
        lemma_reel_total_abs(folder, clips.drop_last(), first_id);
    }
}


// ── staging a batch ──────────────────────────────────────────────

/// The timeline document's file name inside the batch's hand-off folder.
pub const FCPXML_FILE: &'static str = "_IMPORT_ME.fcpxml";

/// One staged reel in the hand-off report.
#[derive(Clone, Debug)]
pub struct HandoffReel {
    pub reel_id: String,
    pub code: String,
    pub title: String,
    pub folder: String,
    pub clips: i64,
}

/// What a hand-off produced.
#[derive(Clone, Debug)]
pub struct HandoffReport {
    pub batch_code: String,
    pub handoff_path: String,
    pub fcpxml_path: String,
    pub staged: Vec<HandoffReel>,
    pub skipped: Vec<String>,
    pub warnings: Vec<String>,
}

/// The selected material of one script block.
#[derive(Clone, Debug)]
pub struct ResolvedTake {
    pub root_id: String,
    pub rel_path: String,
    pub filename: String,
    pub duration_ms: Option<i64>,
    pub clip_key: String,
    pub asset_id: String,
}

/// The clip key of a block's material: the component's code, else "S" and
/// the block's position from 1, two digits at least.
pub open spec fn block_clip_key_spec(b: BlockView) -> Seq<char> {
    match b.component_code {
        Some(c) => c@,
        None => "S"@ + dec_int_padded(b.position + 1, 2),
    }
}

/// Where a block's selected material is looked up.
pub enum TakeSource {
    /// The master take of the linked component.
    ComponentMaster(String),
    /// The selected take of the block's own shot.
    BlockShot(String),
}

/// The lookup for a block: a linked component gives its master take,
/// otherwise the block's own shot gives its selected take.
pub fn take_source(block: &BlockView) -> (s: TakeSource)
    ensures
        block.component_id matches Some(c) ==> (s matches TakeSource::ComponentMaster(x) && x@ == c@),
        block.component_id is None ==> (s matches TakeSource::BlockShot(x) && x@ == block.id@),
{
    match &block.component_id {
        Some(c) => TakeSource::ComponentMaster(owned(c.as_str())),
        None => TakeSource::BlockShot(owned(block.id.as_str())),
    }
}

/// The take row `(root_id, rel_path, filename, duration_ms, asset_id)` of a
/// block's selected take, decoded, with the block's clip key.
pub fn take_from_row(block: &BlockView, row: &crate::db::Row) -> (r: Result<ResolvedTake>)
    ensures
        r matches Err(e) ==> e is Sqlite,
        r is Ok <==> {
            &&& crate::db::text_cell(row@, 0) is Some
            &&& crate::db::text_cell(row@, 1) is Some
            &&& crate::db::text_cell(row@, 2) is Some
            &&& crate::db::opt_int_cell(row@, 3) is Some
            &&& crate::db::text_cell(row@, 4) is Some
        },
        r matches Ok(t) ==> {
            &&& crate::db::text_cell(row@, 0) == Some(t.root_id@)
            &&& crate::db::text_cell(row@, 1) == Some(t.rel_path@)
            &&& crate::db::text_cell(row@, 2) == Some(t.filename@)
            &&& crate::db::opt_int_cell(row@, 3) == Some(t.duration_ms)
            &&& crate::db::text_cell(row@, 4) == Some(t.asset_id@)
            &&& t.clip_key@ == block_clip_key_spec(*block)
        },
{
    let root_id = col_text(row, 0)?;
    let rel_path = col_text(row, 1)?;
    let filename = col_text(row, 2)?;
    let duration_ms = col_opt_int(row, 3)?;
    let asset_id = col_text(row, 4)?;
    Ok(ResolvedTake { root_id, rel_path, filename, duration_ms, clip_key: block_clip_key(block), asset_id })
}

/// The take row `(root_id, rel_path, filename, duration_ms, asset_id)`
/// decodes.
pub open spec fn take_row_ok(row: Seq<crate::db::SqlValue>) -> bool {
    &&& crate::db::text_cell(row, 0) is Some
    &&& crate::db::text_cell(row, 1) is Some
    &&& crate::db::text_cell(row, 2) is Some
    &&& crate::db::opt_int_cell(row, 3) is Some
    &&& crate::db::text_cell(row, 4) is Some
}

/// `t` is the block's take as decoded from a take row.
pub open spec fn take_of_row(block: BlockView, row: Seq<crate::db::SqlValue>, t: ResolvedTake) -> bool {
    &&& crate::db::text_cell(row, 0) == Some(t.root_id@)
    &&& crate::db::text_cell(row, 1) == Some(t.rel_path@)
    &&& crate::db::text_cell(row, 2) == Some(t.filename@)
    &&& crate::db::opt_int_cell(row, 3) == Some(t.duration_ms)
    &&& crate::db::text_cell(row, 4) == Some(t.asset_id@)
    &&& t.clip_key@ == block_clip_key_spec(block)
}

/// The selected material of a block given what was looked up: `id_row` is
/// the row holding the selected take's id (the component's master take, or
/// the selected take of the block's own shot, as `take_source` picks; none
/// when the shot has none) and `take_row` the take's asset row (none when
/// not found). No selected take gives `None`; otherwise the take row gives
/// the take.
pub open spec fn resolved_from(
    block: BlockView,
    id_row: Option<Seq<crate::db::SqlValue>>,
    take_row: Option<Seq<crate::db::SqlValue>>,
    t: Option<ResolvedTake>,
) -> bool {
    match id_row {
        None => t is None,
        Some(ir) => match crate::db::opt_text_cell(ir, 0) {
            Some(Some(_)) => match take_row {
                None => t is None,
                Some(tr) => t matches Some(x) && take_row_ok(tr) && take_of_row(block, tr, x),
            },
            _ => t is None,
        },
    }
}

/// The selected take id held by a looked-up row (see `resolved_from`).
pub fn selected_take_id(id_row: &Option<crate::db::Row>) -> (r: Result<Option<String>>)
    ensures
        r matches Err(e) ==> e is Sqlite,
        id_row is None ==> r matches Ok(None),
        id_row matches Some(ir) ==> (r is Ok <==> crate::db::opt_text_cell(ir@, 0) is Some),
        id_row matches Some(ir) ==> (r matches Ok(o) ==> crate::db::opt_text_cell(ir@, 0) == Some(crate::text::opt_view(o))),
{
    match id_row {
        Some(row) => col_opt_text(row, 0),
        None => Ok(None),
    }
}

/// The block's take from its looked-up take row (`None` when not found).
pub fn take_from_found(block: &BlockView, take_row: &Option<crate::db::Row>) -> (r: Result<Option<ResolvedTake>>)
    ensures
        r matches Err(e) ==> e is Sqlite,
        take_row is None ==> r matches Ok(None),
        take_row matches Some(tr) ==> (r is Ok <==> take_row_ok(tr@)),
        take_row matches Some(tr) ==> (r matches Ok(o) ==> o matches Some(x) && take_of_row(*block, tr@, x)),
{
    match take_row {
        Some(row) => Ok(Some(take_from_row(block, row)?)),
        None => Ok(None),
    }
}

/// Selected material for a block: the lookup that `take_source` picks, then
/// the take's asset row, decoded as `resolved_from` says; `None` when there
/// is no selected take yet.
pub fn resolve_block_take(conn: &rusqlite::Connection, block: &BlockView) -> (r: Result<Option<ResolvedTake>>)
    ensures
        r matches Err(e) ==> e is Sqlite,
        r matches Ok(Some(t)) ==> t.clip_key@ == block_clip_key_spec(*block),
        r matches Ok(t) ==> exists|id_row: Option<Seq<crate::db::SqlValue>>, take_row: Option<Seq<crate::db::SqlValue>>|
            #[trigger] resolved_from(*block, id_row, take_row, t),
{
    let id_row: Option<crate::db::Row> = match take_source(block) {
        TakeSource::ComponentMaster(component_id) => Some(
            query_one(
                conn,
                "SELECT master_take_id FROM components WHERE id = ?1",
                &crate::db::texts_write(&[component_id.as_str()]),
            )?,
        ),
        TakeSource::BlockShot(block_id) => query_opt(
            conn,
            "SELECT selected_take_id FROM shots WHERE script_block_id = ?1 AND selected_take_id IS NOT NULL",
            &crate::db::texts_write(&[block_id.as_str()]),
        )?,
    };
    let take_id = match selected_take_id(&id_row)? {
        Some(t) => t,
        None => {
            proof {
                let ir = match id_row {
                    Some(x) => Some(x@),
                    None => None,
                };
                assert(resolved_from(*block, ir, None, None));
            }
            return Ok(None);
        },
    };
    let take_row = query_opt(
        conn,
        "SELECT a.root_id, a.rel_path, a.filename, a.duration_ms, t.asset_id
         FROM takes t JOIN assets a ON a.id = t.asset_id WHERE t.id = ?1",
        &crate::db::texts_write(&[take_id.as_str()]),
    )?;
    let found = take_from_found(block, &take_row)?;
    proof {
        let ir = match id_row {
            Some(x) => Some(x@),
            None => None,
        };
        let tr = match take_row {
            Some(x) => Some(x@),
            None => None,
        };
        assert(resolved_from(*block, ir, tr, found));
    }
    Ok(found)
}

/// The staged name of clip `ordinal` of a reel: "{nn}_{KIND}_{clip_key}.{ext}".
pub open spec fn dest_name_spec(ordinal: int, kind: Seq<char>, clip_key: Seq<char>, ext: Seq<char>) -> Seq<char> {
    dec_int_padded(ordinal, 2) + "_"@ + kind + "_"@ + clip_key + "."@ + ext
}

/// Clip `j` of a reel is staged from block `j` of its script.
pub open spec fn clip_from_block(c: StagedClip, j: int, b: BlockView) -> bool {
    &&& c.ordinal == j + 1
    &&& c.kind@ == uppercase(b.kind@)
    &&& c.clip_key@ == block_clip_key_spec(b)
    &&& c.dest_name@ == dest_name_spec(j + 1, uppercase(b.kind@), c.clip_key@, take_ext(c.filename@))
}

/// A reel is staged with one clip per block, in script order.
pub open spec fn staged_reel(rc: ReelClips) -> bool {
    &&& (rc.detail.status@ == "shot"@ || rc.detail.status@ == "assembled"@)
    &&& rc.clips.len() == rc.detail.blocks.len()
    &&& rc.clips.len() > 0
    &&& forall|j: int| 0 <= j < rc.clips.len() ==> clip_from_block(#[trigger] rc.clips@[j], j, rc.detail.blocks@[j])
}

/// What a batch's hand-off stages, before anything is written.
#[derive(Clone, Debug)]
pub struct HandoffPlan {
    pub batch_code: String,
    /// The storage root of the first staged clip, where the hand-off folder goes.
    pub root_path: String,
    /// The reels whose every block has selected material.
    pub reels: Vec<ReelClips>,
    /// Why each other reel is left out.
    pub skipped: Vec<String>,
}

/// A block's clip key (see `block_clip_key_spec`).
pub fn block_clip_key(b: &BlockView) -> (k: String)
    ensures
        k@ == block_clip_key_spec(*b),
{
    match &b.component_code {
        Some(c) => owned(c.as_str()),
        None => {
            let mut k = String::from_str("S");
            push_int_padded(&mut k, b.position as i128 + 1, 2);
            k
        },
    }
}

/// A block's selected take together with the folder of that take's storage
/// root.
#[derive(Clone, Debug)]
pub struct BlockMaterial {
    pub take: ResolvedTake,
    pub root_path: String,
}

/// A reel of a batch with the material found for its blocks: one entry per
/// block from the first, up to and including the first block without a
/// selected take (none looked up for a reel that cannot be staged).
#[derive(Clone, Debug)]
pub struct ReelMaterial {
    pub detail: ReelDetail,
    pub takes: Vec<Option<BlockMaterial>>,
}

/// The statuses a reel can be staged from.
pub open spec fn stageable_status(s: Seq<char>) -> bool {
    s == "shot"@ || s == "assembled"@
}

/// A reel is ready when it can be staged and every block has a selected take.
pub open spec fn material_ready(m: ReelMaterial) -> bool {
    &&& stageable_status(m.detail.status@)
    &&& m.detail.blocks.len() > 0
    &&& forall|j: int| 0 <= j < m.detail.blocks.len() ==> j < m.takes.len() && (#[trigger] m.takes@[j]) is Some
}

/// Block `j` is the first block of the reel without a selected take.
pub open spec fn first_missing(m: ReelMaterial, j: int) -> bool {
    &&& 0 <= j < m.detail.blocks.len()
    &&& forall|k: int| 0 <= k < j ==> k < m.takes.len() && (#[trigger] m.takes@[k]) is Some
    &&& !(j < m.takes.len() && m.takes@[j] is Some)
}

/// A reel left out of the hand-off without a reason: one that could be
/// staged but has no script blocks, so it has nothing to stage.
pub open spec fn left_out_silently(m: ReelMaterial) -> bool {
    stageable_status(m.detail.status@) && m.detail.blocks.len() == 0
}

/// Why a reel that is not ready is left out of the hand-off.
pub open spec fn skip_reason(m: ReelMaterial) -> Seq<char> {
    let code = m.detail.code@;
    if !stageable_status(m.detail.status@) {
        code + " — status "@ + m.detail.status@ + ", needs selected takes for every block"@
    } else {
        let j = choose|j: int| first_missing(m, j);
        code + " — block "@ + dec((j + 1) as nat) + " ("@ + m.detail.blocks@[j].kind@ + ") has no selected take"@
    }
}

/// Clip `j` of a reel is staged from block `j` and that block's own take,
/// read from the take's own storage root.
pub open spec fn clip_from_material(c: StagedClip, j: int, b: BlockView, t: BlockMaterial) -> bool {
    &&& clip_from_block(c, j, b)
    &&& c.asset_id@ == t.take.asset_id@
    &&& c.src_root@ == t.root_path@
    &&& c.src_rel@ == t.take.rel_path@
    &&& c.filename@ == t.take.filename@
    &&& c.duration_ms == t.take.duration_ms
}

/// A staged reel is its material's reel with one clip per block, each from
/// that block's take.
pub open spec fn staged_from(rc: ReelClips, m: ReelMaterial) -> bool {
    &&& rc.detail == m.detail
    &&& staged_reel(rc)
    &&& forall|j: int|
        0 <= j < rc.clips.len() ==> clip_from_material(
            #[trigger] rc.clips@[j],
            j,
            m.detail.blocks@[j],
            m.takes@[j]->Some_0,
        )
}

/// The ready reels, in batch order.
pub open spec fn ready_of(m: ReelMaterial) -> Option<ReelMaterial> {
    if material_ready(m) {
        Some(m)
    } else {
        None
    }
}

/// The reasons of the reels left out, in batch order.
pub open spec fn skip_of(m: ReelMaterial) -> Option<Seq<char>> {
    if material_ready(m) || left_out_silently(m) {
        None
    } else {
        Some(skip_reason(m))
    }
}

/// `ready_of` as a function value.
pub open spec fn ready_fn() -> spec_fn(ReelMaterial) -> Option<ReelMaterial> {
    |m: ReelMaterial| ready_of(m)
}

/// `skip_of` as a function value.
pub open spec fn skip_fn() -> spec_fn(ReelMaterial) -> Option<Seq<char>> {
    |m: ReelMaterial| skip_of(m)
}

fn staged_clip(t: &BlockMaterial, j: usize, b: &BlockView) -> (c: StagedClip)
    requires
        j < usize::MAX,
    ensures
        clip_from_material(c, j as int, *b, *t),
{
    let kind = to_upper(b.kind.as_str());
    let clip_key = block_clip_key(b);
    let name = crate::library::file_name(t.take.filename.as_str());
    let ext = match crate::library::extension(name.as_str()) {
        Some(e) => to_lower(e.as_str()),
        None => owned("mp4"),
    };
    let mut dest = String::new();
    push_int_padded(&mut dest, j as i128 + 1, 2);
    dest.append("_");
    dest.append(kind.as_str());
    dest.append("_");
    dest.append(clip_key.as_str());
    dest.append(".");
    dest.append(ext.as_str());
    StagedClip {
        ordinal: j + 1,
        kind,
        clip_key,
        asset_id: owned(t.take.asset_id.as_str()),
        src_root: owned(t.root_path.as_str()),
        src_rel: owned(t.take.rel_path.as_str()),
        dest_name: dest,
        duration_ms: t.take.duration_ms,
        filename: owned(t.take.filename.as_str()),
    }
}

/// Stage one reel: its clips when it is ready, else why it is left out
/// (`None` for a reel without script blocks, which is left out silently).
pub fn stage_reel(m: ReelMaterial) -> (r: core::result::Result<ReelClips, Option<String>>)
    ensures
        material_ready(m) ==> (r matches Ok(rc) && staged_from(rc, m)),
        left_out_silently(m) ==> r matches Err(None),
        !material_ready(m) && !left_out_silently(m) ==> (r matches Err(Some(s)) && s@ == skip_reason(m)),
{
    let st = m.detail.status.as_str();
    if !(str_eq(st, "shot") || str_eq(st, "assembled")) {
        proof {
            reveal_strlit("shot");
            reveal_strlit("assembled");
        }
        let mut s = String::from_str(m.detail.code.as_str());
        s.append(" — status ");
        s.append(st);
        s.append(", needs selected takes for every block");
        return Err(Some(s));
    }
    proof {
        reveal_strlit("shot");
        reveal_strlit("assembled");
    }
    if m.detail.blocks.len() == 0 {
        return Err(None);
    }
    let mut clips: Vec<StagedClip> = Vec::new();
    let mut j: usize = 0;
    while j < m.detail.blocks.len()
        invariant
            j <= m.detail.blocks.len(),
            stageable_status(m.detail.status@),
            m.detail.blocks.len() > 0,
            clips.len() == j,
            forall|k: int| 0 <= k < j ==> k < m.takes.len() && (#[trigger] m.takes@[k]) is Some,
            forall|q: int|
                0 <= q < j ==> clip_from_material(
                    #[trigger] clips@[q],
                    q,
                    m.detail.blocks@[q],
                    m.takes@[q]->Some_0,
                ),
        decreases m.detail.blocks.len() - j,
    {
        let b = &m.detail.blocks[j];
        let found = if j < m.takes.len() {
            match &m.takes[j] {
                Some(t) => Some(t),
                None => None,
            }
        } else {
            None
        };
        match found {
            Some(t) => {
                clips.push(staged_clip(t, j, b));
            },
            None => {
                proof {
                    assert(first_missing(m, j as int));
                    let jj = choose|jj: int| first_missing(m, jj);
                    if jj < j {
                        assert(m.takes@[jj] is Some);
                    }
                    if jj > j {
                        assert(j < m.takes.len() && m.takes@[j as int] is Some);
                    }
                    assert(jj == j);
                }
                let mut s = String::from_str(m.detail.code.as_str());
                s.append(" — block ");
                push_dec(&mut s, j as u64 + 1);
                s.append(" (");
                s.append(b.kind.as_str());
                s.append(") has no selected take");
                proof {
                    let jj = choose|jj: int| first_missing(m, jj);
                    assert(jj == j);
                    assert(!material_ready(m));
                    assert(stageable_status(m.detail.status@));
                    assert(m.detail.blocks.len() != 0);
                    assert(b.kind@ == m.detail.blocks@[jj].kind@);
                    assert(s@ =~= m.detail.code@ + " — block "@ + dec((j + 1) as nat) + " ("@ + b.kind@ + ") has no selected take"@);
                    assert(s@ =~= skip_reason(m));
                }
                return Err(Some(s));
            },
        }
        j += 1;
    }
    let rc = ReelClips { detail: m.detail, clips };
    Ok(rc)
}

/// The error for a batch without reels.
pub open spec fn no_reels_msg() -> Seq<char> {
    "this batch has no reels — add reels to its shot list first"@
}

/// The error for a batch none of whose reels is ready.
pub open spec fn no_ready_msg() -> Seq<char> {
    "no reels in this batch are ready — every block needs a selected take"@
}

/// `p` is the hand-off of a batch with code `code` whose reels' material is
/// `ms`: exactly the ready reels are staged, in order, each from its own
/// material; every other reel is listed with its reason, in order (a reel
/// without script blocks is left out silently); the staging root is the root
/// of the first staged clip.
pub open spec fn plan_matches(code: Seq<char>, ms: Seq<ReelMaterial>, p: HandoffPlan) -> bool {
    let ready = ms.filter_map(ready_fn());
    &&& p.batch_code@ == code
    &&& p.reels.len() == ready.len()
    &&& forall|k: int| 0 <= k < p.reels.len() ==> staged_from(#[trigger] p.reels@[k], ready[k])
    &&& crate::text::views(p.skipped@) == ms.filter_map(skip_fn())
    &&& p.reels.len() > 0
    &&& p.root_path@ == p.reels@[0].clips@[0].src_root@
}

/// A reel's material was looked up block by block: each block's entry is the
/// block's selected take as `resolve_block_take` found it, and an entry is
/// looked up only for a reel that can be staged.
pub open spec fn material_resolved(m: ReelMaterial) -> bool {
    &&& m.takes.len() <= m.detail.blocks.len()
    &&& m.takes.len() > 0 ==> stageable_status(m.detail.status@)
    &&& forall|j: int|
        #![trigger m.takes@[j]]
        0 <= j < m.takes.len() ==> exists|id_row: Option<Seq<crate::db::SqlValue>>, take_row: Option<Seq<crate::db::SqlValue>>|
            #[trigger] resolved_from(
                m.detail.blocks@[j],
                id_row,
                take_row,
                entry_take(m.takes@[j]),
            )
}

/// The take of a block's material entry.
pub open spec fn entry_take(e: Option<BlockMaterial>) -> Option<ResolvedTake> {
    match e {
        Some(bm) => Some(bm.take),
        None => None,
    }
}

/// Put a batch's hand-off together from its reels' material: exactly the
/// ready reels are staged, in order, and every other reel is listed with its
/// reason (a reel without script blocks is left out silently); the staging
/// root is the root of the first staged clip.
pub fn assemble_plan(batch_code: String, materials: Vec<ReelMaterial>) -> (r: Result<HandoffPlan>)
    ensures
        materials.len() == 0 ==> (r matches Err(CoreError::Invalid(m)) && m@ == no_reels_msg()),
        materials.len() > 0 && materials@.filter_map(ready_fn()).len() == 0 ==> (r matches Err(
            CoreError::Invalid(m),
        ) && m@ == no_ready_msg()),
        r is Err ==> materials.len() == 0 || materials@.filter_map(ready_fn()).len() == 0,
        r matches Ok(p) ==> plan_matches(batch_code@, materials@, p),
{
    if materials.len() == 0 {
        return Err(invalid("this batch has no reels — add reels to its shot list first"));
    }
    let ghost orig = materials@;
    let ghost fr = ready_fn();
    let ghost fs = skip_fn();
    let mut rest = materials;
    let mut reels_out: Vec<ReelClips> = Vec::new();
    let mut skipped: Vec<String> = Vec::new();
    let mut i: usize = 0;
    let n = rest.len();
    assert(orig.take(0) =~= Seq::<ReelMaterial>::empty());
    while i < n
        invariant
            n == orig.len(),
            i <= n,
            fr == ready_fn(),
            fs == skip_fn(),
            rest@ =~= orig.subrange(i as int, n as int),
            reels_out.len() == orig.take(i as int).filter_map(fr).len(),
            forall|k: int|
                0 <= k < reels_out.len() ==> staged_from(
                    #[trigger] reels_out@[k],
                    orig.take(i as int).filter_map(fr)[k],
                ),
            crate::text::views(skipped@) == orig.take(i as int).filter_map(fs),
        decreases n - i,
    {
        let m = rest.remove(0);
        assert(m == orig[i as int]);
        proof {
            assert(orig.take(i + 1).drop_last() =~= orig.take(i as int));
            assert(orig.take(i + 1).last() == orig[i as int]);
        }
        let ghost before_s = skipped@;
        let ghost before_r = reels_out@;
        let ghost pre = orig.take(i as int);
        let ghost cur = orig.take(i + 1);
        proof {
            assert(cur.len() > 0);
            assert(cur.drop_last() =~= pre);
            assert(cur.last() == m);
            assert(fr(m) == ready_of(m));
            assert(fs(m) == skip_of(m));
        }
        match stage_reel(m) {
            Ok(rc) => {
                reels_out.push(rc);
                proof {
                    assert(material_ready(m));
                    assert(cur.filter_map(fr) =~= pre.filter_map(fr) + seq![m]);
                    assert(cur.filter_map(fs) =~= pre.filter_map(fs));
                }
            },
            Err(Some(s)) => {
                skipped.push(s);
                proof {
                    crate::text::lemma_views_push(before_s, skipped@);
                    assert(!material_ready(m));
                    assert(cur.filter_map(fr) =~= pre.filter_map(fr));
                    assert(cur.filter_map(fs) =~= pre.filter_map(fs) + seq![skip_reason(m)]);
                }
            },
            Err(None) => {
                proof {
                    assert(!material_ready(m));
                    assert(cur.filter_map(fr) =~= pre.filter_map(fr));
                    assert(cur.filter_map(fs) =~= pre.filter_map(fs));
                }
            },
        }
        i += 1;
        assert(crate::text::views(skipped@) =~= orig.take(i as int).filter_map(fs));
    }
    assert(orig.take(n as int) =~= orig);
    if reels_out.len() == 0 {
        return Err(invalid("no reels in this batch are ready — every block needs a selected take"));
    }
    assert(staged_reel(reels_out@[0]));
    let root_path = owned(reels_out[0].clips[0].src_root.as_str());
    Ok(HandoffPlan { batch_code, root_path, reels: reels_out, skipped })
}

/// Work out a batch's hand-off: the batch's reels are looked up, with the
/// selected take of each block (and that take's storage root) for every reel
/// in status shot or assembled, up to its first block without one; the plan
/// is then put together by `assemble_plan`.
pub fn plan_handoff(conn: &rusqlite::Connection, batch_id: &str) -> (r: Result<HandoffPlan>)
    ensures
        r matches Err(CoreError::Invalid(m)) ==> m@ == no_reels_msg() || m@ == no_ready_msg(),
        r matches Err(CoreError::NotFound(m)) ==> m@ == "batch "@ + batch_id@ || exists|x: Seq<char>| m@ == "reel "@ + x,
        r matches Ok(p) ==> forall|k: int| 0 <= k < p.reels.len() ==> staged_reel(#[trigger] p.reels@[k]),
        r matches Ok(p) ==> exists|ms: Seq<ReelMaterial>|
            #[trigger] plan_matches(p.batch_code@, ms, p) && forall|k: int|
                0 <= k < ms.len() ==> material_resolved(#[trigger] ms[k]),
{
    let batch = batches::detail(conn, batch_id)?;
    let reel_ids = batches::reels_in_batch(conn, batch_id)?;
    let mut materials: Vec<ReelMaterial> = Vec::new();
    let mut i: usize = 0;
    while i < reel_ids.len()
        invariant
            i <= reel_ids.len(),
            forall|k: int| 0 <= k < materials.len() ==> material_resolved(#[trigger] materials@[k]),
        decreases reel_ids.len() - i,
    {
        let detail = reels::get_detail(conn, reel_ids[i].as_str())?;
        let mut takes: Vec<Option<BlockMaterial>> = Vec::new();
        let st = detail.status.as_str();
        if str_eq(st, "shot") || str_eq(st, "assembled") {
            proof {
                reveal_strlit("shot");
                reveal_strlit("assembled");
            }
            let mut j: usize = 0;
            while j < detail.blocks.len()
                invariant_except_break
                    takes.len() == j,
                invariant
                    j <= detail.blocks.len(),
                    takes.len() <= detail.blocks.len(),
                    stageable_status(detail.status@),
                    forall|q: int|
                        #![trigger takes@[q]]
                        0 <= q < takes.len() ==> exists|a: Option<Seq<crate::db::SqlValue>>, b: Option<Seq<crate::db::SqlValue>>|
                            #[trigger] resolved_from(detail.blocks@[q], a, b, entry_take(takes@[q])),
                ensures
                    takes.len() <= detail.blocks.len(),
                    forall|q: int|
                        #![trigger takes@[q]]
                        0 <= q < takes.len() ==> exists|a: Option<Seq<crate::db::SqlValue>>, b: Option<Seq<crate::db::SqlValue>>|
                            #[trigger] resolved_from(detail.blocks@[q], a, b, entry_take(takes@[q])),
                decreases detail.blocks.len() - j,
            {
                let found = resolve_block_take(conn, &detail.blocks[j])?;
                let ghost before = takes@;
                match found {
                    Some(t) => {
                        let root_path = root_folder(conn, t.root_id.as_str())?;
                        takes.push(Some(BlockMaterial { take: t, root_path }));
                        proof {
                            assert(entry_take(takes@[j as int]) == found);
                            assert forall|q: int| #![trigger takes@[q]] 0 <= q < takes.len() implies exists|
                                a: Option<Seq<crate::db::SqlValue>>,
                                b: Option<Seq<crate::db::SqlValue>>,
                            | #[trigger] resolved_from(detail.blocks@[q], a, b, entry_take(takes@[q])) by {
                                if q < j {
                                    assert(takes@[q] == before[q]);
                                }
                            }
                        }
                    },
                    None => {
                        takes.push(None);
                        proof {
                            assert(entry_take(takes@[j as int]) == found);
                            assert forall|q: int| #![trigger takes@[q]] 0 <= q < takes.len() implies exists|
                                a: Option<Seq<crate::db::SqlValue>>,
                                b: Option<Seq<crate::db::SqlValue>>,
                            | #[trigger] resolved_from(detail.blocks@[q], a, b, entry_take(takes@[q])) by {
                                if q < j {
                                    assert(takes@[q] == before[q]);
                                }
                            }
                        }
                        break;
                    },
                }
                j += 1;
            }
        }
        let m = ReelMaterial { detail, takes };
        assert(material_resolved(m));
        materials.push(m);
        i += 1;
    }
    let ghost mats = materials@;
    let plan = assemble_plan(batch.code, materials)?;
    proof {
        let ready = mats.filter_map(ready_fn());
        assert forall|k: int| 0 <= k < plan.reels.len() implies staged_reel(#[trigger] plan.reels@[k]) by {
            assert(staged_from(plan.reels@[k], ready[k]));
        }
        assert(plan_matches(plan.batch_code@, mats, plan));
    }
    Ok(plan)
}


/// The batch's hand-off folder inside the storage root: "02_HANDOFF/{batch}".
pub fn handoff_dir_rel(batch_code: &str) -> (r: String)
    ensures
        r@ == HANDOFF_DIR@ + "/"@ + batch_code@,
{
    concat3(HANDOFF_DIR, "/", batch_code)
}

/// A reel's folder name inside the hand-off folder.
pub fn reel_folder(detail: &ReelDetail) -> (r: String)
    ensures
        r@ == reel_folder_spec(detail.code@, detail.slug@),
{
    concat3(detail.code.as_str(), "_", detail.slug.as_str())
}

/// The script lines of blocks: "[n KIND]", the text, a blank line.
pub open spec fn script_blocks_spec(bs: Seq<BlockView>) -> Seq<char>
    decreases bs.len(),
{
    if bs.len() == 0 {
        Seq::empty()
    } else {
        script_blocks_spec(bs.drop_last()) + "["@ + dec(bs.len()) + " "@ + uppercase(bs.last().kind@)
            + "]\n"@ + bs.last().text@ + "\n\n"@
    }
}

/// A reel's script file: "{code} — {title}", a blank line, then the blocks.
pub open spec fn script_spec(d: ReelDetail) -> Seq<char> {
    d.code@ + " — "@ + d.title@ + "\n\n"@ + script_blocks_spec(d.blocks@)
}

/// A reel's script file contents.
pub fn script_text(d: &ReelDetail) -> (r: String)
    ensures
        r@ == script_spec(*d),
{
    let mut s = concat3(d.code.as_str(), " — ", d.title.as_str());
    s.append("\n\n");
    let ghost head = s@;
    let mut i: usize = 0;
    assert(d.blocks@.take(0) =~= Seq::<BlockView>::empty());
    while i < d.blocks.len()
        invariant
            i <= d.blocks.len(),
            s@ == head + script_blocks_spec(d.blocks@.take(i as int)),
        decreases d.blocks.len() - i,
    {
        let b = &d.blocks[i];
        let ghost s0 = s@;
        s.append("[");
        push_dec(&mut s, i as u64 + 1);
        s.append(" ");
        let k = to_upper(b.kind.as_str());
        s.append(k.as_str());
        s.append("]\n");
        s.append(b.text.as_str());
        s.append("\n\n");
        proof {
            let t = d.blocks@.take(i + 1);
            assert(t.drop_last() =~= d.blocks@.take(i as int));
            assert(t.last() == d.blocks@[i as int]);
            assert(s@ =~= head + script_blocks_spec(t));
        }
        i += 1;
    }
    assert(d.blocks@.take(i as int) =~= d.blocks@);
    s
}

/// A reel's script file name.
pub fn script_file_name(code: &str) -> (r: String)
    ensures
        r@ == code@ + "_script.txt"@,
{
    concat2(code, "_script.txt")
}

/// The warning for a clip laid out without a known duration.
pub fn duration_warning(code: &str, dest_name: &str) -> (r: String)
    ensures
        r@ == code@ + "/"@ + dest_name@ + " — unknown duration (ffprobe not available); timeline assumes 60s"@,
{
    let mut m = concat3(code, "/", dest_name);
    m.append(" — unknown duration (ffprobe not available); timeline assumes 60s");
    m
}

/// The id of a staged reel that is still in `shot`.
pub open spec fn shot_reel_id(rc: ReelClips) -> Option<Seq<char>> {
    if rc.detail.status@ == "shot"@ {
        Some(rc.detail.id@)
    } else {
        None
    }
}

/// `shot_reel_id` as a function value.
pub open spec fn shot_reel_fn() -> spec_fn(ReelClips) -> Option<Seq<char>> {
    |rc: ReelClips| shot_reel_id(rc)
}

/// The reels a hand-off moves to `assembled`: exactly the staged reels still
/// in `shot`, in order.
pub fn reels_to_assemble(plan: &HandoffPlan) -> (ids: Vec<String>)
    ensures
        crate::text::views(ids@) == plan.reels@.filter_map(shot_reel_fn()),
{
    let mut ids: Vec<String> = Vec::new();
    let mut i: usize = 0;
    assert(plan.reels@.take(0) =~= Seq::<ReelClips>::empty());
    while i < plan.reels.len()
        invariant
            i <= plan.reels.len(),
            crate::text::views(ids@) == plan.reels@.take(i as int).filter_map(shot_reel_fn()),
        decreases plan.reels.len() - i,
    {
        let d = &plan.reels[i].detail;
        let ghost pre = plan.reels@.take(i as int);
        let ghost cur = plan.reels@.take(i + 1);
        proof {
            assert(cur.drop_last() =~= pre);
            assert(cur.last() == plan.reels@[i as int]);
            reveal_strlit("shot");
        }
        if str_eq(d.status.as_str(), "shot") {
            let ghost before = ids@;
            ids.push(owned(d.id.as_str()));
            proof {
                crate::text::lemma_views_push(before, ids@);
                assert(cur.filter_map(shot_reel_fn()) =~= pre.filter_map(shot_reel_fn()) + seq![d.id@]);
            }
        } else {
            assert(cur.filter_map(shot_reel_fn()) =~= pre.filter_map(shot_reel_fn()));
        }
        i += 1;
    }
    assert(plan.reels@.take(plan.reels.len() as int) =~= plan.reels@);
    ids
}

/// The number of staged reels, as logged.
pub fn staged_count(plan: &HandoffPlan) -> (n: i64)
    ensures
        plan.reels.len() <= 0x7fff_ffff_ffff_ffff ==> n == plan.reels.len(),
{
    let len = plan.reels.len() as u64;
    if len > 0x7fff_ffff_ffff_ffff {
        0x7fff_ffff_ffff_ffff
    } else {
        len as i64
    }
}

/// After staging: the reels that `reels_to_assemble` gives move to
/// `assembled`, and the hand-off is logged with the number of staged reels.
pub fn finish_handoff(conn: &rusqlite::Connection, plan: &HandoffPlan) -> (r: Result<()>)
    ensures
        r matches Err(CoreError::Invalid(m)) ==> reels::refused_move(m@, "assembled"@, false),
{
    let ids = reels_to_assemble(plan);
    let mut i: usize = 0;
    while i < ids.len()
        invariant
            i <= ids.len(),
        decreases ids.len() - i,
    {
        proof {
            reels::lemma_stage_name_parses(reels::Stage::Assembled);
        }
        reels::set_status(conn, ids[i].as_str(), "assembled", false)?;
        i += 1;
    }
    let detail = json_object1("reels", json_int(staged_count(plan)));
    activity::log(conn, "batch", plan.batch_code.as_str(), "handoff-generated", Some(&detail))
}

// ── finals back in ───────────────────────────────────────────────

/// A rendered final matched to a reel by its code.
#[derive(Clone, Debug)]
pub struct ExportMatch {
    pub rel_path: String,
    pub filename: String,
    pub reel_id: String,
    pub reel_code: String,
    pub reel_title: String,
    pub reel_status: String,
}

/// The result of scanning `03_EXPORTS`.
#[derive(Clone, Debug)]
pub struct ExportScan {
    pub matches: Vec<ExportMatch>,
    pub unmatched: Vec<String>,
}

impl ExportScan {
    /// An empty scan.
    pub fn new() -> (r: ExportScan)
        ensures
            r.matches.len() == 0 && r.unmatched.len() == 0,
    {
        ExportScan { matches: Vec::new(), unmatched: Vec::new() }
    }
}

/// Final renders are mp4 or mov files (extension compared in lower case).
pub open spec fn is_final_file_spec(name: Seq<char>) -> bool {
    match extension_spec(file_name_spec(name)) {
        Some(e) => lowercase(e) == "mp4"@ || lowercase(e) == "mov"@,
        None => false,
    }
}

/// Whether a file in `03_EXPORTS` is a final render.
pub fn is_final_file(name: &str) -> (b: bool)
    ensures
        b == is_final_file_spec(name@),
{
    let n = crate::library::file_name(name);
    match crate::library::extension(n.as_str()) {
        Some(e) => {
            let l = to_lower(e.as_str());
            str_eq(l.as_str(), "mp4") || str_eq(l.as_str(), "mov")
        },
        None => false,
    }
}

/// The unmatched entry for a final without a code in its name.
pub open spec fn no_code_note(filename: Seq<char>) -> Seq<char> {
    filename + " — no R#### code in the name; render with the timeline name"@
}

/// The unmatched entry for a final whose code names no reel.
pub open spec fn no_reel_note(filename: Seq<char>, code: Seq<char>) -> Seq<char> {
    filename + " — no reel "@ + code + " exists"@
}

/// File one final found in `03_EXPORTS` into the scan: matched to the reel
/// whose code its name carries, else listed as unmatched with the reason.
pub fn match_export(conn: &rusqlite::Connection, scan: &mut ExportScan, filename: &str) -> (r: Result<()>)
    ensures
        r matches Err(e) ==> e is Sqlite,
        r is Ok && reel_code_from(filename.spec_bytes(), 0) is None ==> {
            &&& final(scan).matches@ == old(scan).matches@
            &&& final(scan).unmatched@.len() == old(scan).unmatched@.len() + 1
            &&& final(scan).unmatched@.last()@ == no_code_note(filename@)
        },
        r is Ok && reel_code_from(filename.spec_bytes(), 0) is Some ==> ({
            let code = reel_code_from(filename.spec_bytes(), 0)->0;
            ||| (final(scan).matches@ == old(scan).matches@ && final(scan).unmatched@.len()
                == old(scan).unmatched@.len() + 1 && final(scan).unmatched@.last()@ == no_reel_note(filename@, code))
            ||| (final(scan).unmatched@ == old(scan).unmatched@ && final(scan).matches@.len()
                == old(scan).matches@.len() + 1 && final(scan).matches@.last().filename@ == filename@
                && final(scan).matches@.last().rel_path@ == EXPORTS_DIR@ + "/"@ + filename@)
        }),
{
    let code = match parse_reel_code(filename) {
        Some(c) => c,
        None => {
            let mut m = String::from_str(filename);
            m.append(" — no R#### code in the name; render with the timeline name");
            scan.unmatched.push(m);
            return Ok(());
        },
    };
    let found = query_opt(
        conn,
        "SELECT id, code, title, status FROM reels WHERE code = ?1",
        &crate::db::texts_write(&[code.as_str()]),
    )?;
    apply_export_lookup(scan, filename, code.as_str(), found)
}

/// File a final into the scan once its reel code was looked up: with no reel
/// row it is listed as unmatched, with the row `(id, code, title, status)` it
/// is matched to that reel.
pub fn apply_export_lookup(scan: &mut ExportScan, filename: &str, code: &str, found: Option<crate::db::Row>) -> (r: Result<()>)
    ensures
        r matches Err(e) ==> e is Sqlite,
        found is None ==> {
            &&& r is Ok
            &&& final(scan).matches@ == old(scan).matches@
            &&& final(scan).unmatched@.len() == old(scan).unmatched@.len() + 1
            &&& final(scan).unmatched@.drop_last() == old(scan).unmatched@
            &&& final(scan).unmatched@.last()@ == no_reel_note(filename@, code@)
        },
        found matches Some(row) ==> {
            &&& (r is Ok <==> (forall|i: int| 0 <= i < 4 ==> #[trigger] crate::db::text_cell(row@, i) is Some))
            &&& r is Ok ==> {
                let m = final(scan).matches@.last();
                &&& final(scan).unmatched@ == old(scan).unmatched@
                &&& final(scan).matches@.len() == old(scan).matches@.len() + 1
                &&& final(scan).matches@.drop_last() == old(scan).matches@
                &&& m.filename@ == filename@
                &&& m.rel_path@ == EXPORTS_DIR@ + "/"@ + filename@
                &&& crate::db::text_cell(row@, 0) == Some(m.reel_id@)
                &&& crate::db::text_cell(row@, 1) == Some(m.reel_code@)
                &&& crate::db::text_cell(row@, 2) == Some(m.reel_title@)
                &&& crate::db::text_cell(row@, 3) == Some(m.reel_status@)
            }
        },
{
    match found {
        None => {
            let mut m = String::from_str(filename);
            m.append(" — no reel ");
            m.append(code);
            m.append(" exists");
            scan.unmatched.push(m);
            assert(scan.unmatched@.drop_last() =~= old(scan).unmatched@);
            Ok(())
        },
        Some(row) => {
            let reel_id = col_text(&row, 0)?;
            let reel_code = col_text(&row, 1)?;
            let reel_title = col_text(&row, 2)?;
            let reel_status = col_text(&row, 3)?;
            assert(forall|i: int| 0 <= i < 4 ==> #[trigger] crate::db::text_cell(row@, i) is Some) by {
                assert(crate::db::text_cell(row@, 0) is Some);
                assert(crate::db::text_cell(row@, 1) is Some);
                assert(crate::db::text_cell(row@, 2) is Some);
                assert(crate::db::text_cell(row@, 3) is Some);
            }
            let m = ExportMatch {
                rel_path: concat3(EXPORTS_DIR, "/", filename),
                filename: owned(filename),
                reel_id,
                reel_code,
                reel_title,
                reel_status,
            };
            scan.matches.push(m);
            assert(scan.matches@.drop_last() =~= old(scan).matches@);
            Ok(())
        },
    }
}

/// A confirmed final, filed.
#[derive(Clone, Debug)]
pub struct ConfirmedExport {
    pub reel_code: String,
    pub final_path: String,
}

/// The folder of a storage root; a database error when it is not registered.
pub fn root_folder(conn: &rusqlite::Connection, root_id: &str) -> (r: Result<String>)
    ensures
        r matches Err(e) ==> e is Sqlite,
{
    let row = query_one(conn, "SELECT path FROM storage_roots WHERE id = ?1", &crate::db::texts_write(&[root_id]))?;
    col_text(&row, 0)
}

/// The error for an export file that is not there.
pub fn export_missing(rel_path: &str) -> (e: CoreError)
    ensures
        e matches CoreError::NotFound(m) && m@ == "export file "@ + rel_path@,
{
    not_found("export file ", rel_path)
}

/// The month folder of a time: its first seven characters ("YYYY-MM").
pub fn month_of(now: &str) -> (r: String)
    requires
        now@.len() >= 7,
        forall|i: int| 0 <= i < 7 ==> (now@[i] as u32) < 128,
    ensures
        r@ == now@.subrange(0, 7),
{
    let v = chars_of(now);
    let mut r = String::new();
    crate::text::push_range(&mut r, &v, 0, 7);
    r
}

/// Where finals of a month are filed inside the root: "04_FINALS/{month}".
pub fn finals_dir_rel(month: &str) -> (r: String)
    ensures
        r@ == FINALS_DIR@ + "/"@ + month@,
{
    concat3(FINALS_DIR, "/", month)
}

/// The refusal to file a final over an existing one.
pub fn final_exists(filename: &str, month: &str) -> (e: CoreError)
    ensures
        e matches CoreError::Invalid(m) && m@ == filename@ + " already exists in "@ + FINALS_DIR@ + "/"@
            + month@ + " — rename the export (e.g. _v2) first"@,
{
    let mut m = concat3(filename, " already exists in ", FINALS_DIR);
    m.append("/");
    m.append(month);
    m.append(" — rename the export (e.g. _v2) first");
    CoreError::Invalid(m)
}

/// The statuses a reel keeps when its final is filed.
pub open spec fn final_settled(status: Seq<char>) -> bool {
    status == "edited"@ || status == "scheduled"@ || status == "posted"@ || status == "verified"@
}

/// The status move of a reel whose final is filed: to `edited`, unless it is
/// there or further.
pub fn final_status_move(status: &str) -> (r: Option<&'static str>)
    ensures
        final_settled(status@) ==> r is None,
        !final_settled(status@) ==> (r matches Some(s) && s@ == "edited"@),
{
    proof {
        reveal_strlit("edited");
    }
    if str_eq(status, "edited") || str_eq(status, "scheduled") || str_eq(status, "posted") || str_eq(
        status,
        "verified",
    ) {
        proof {
            reveal_strlit("scheduled");
            reveal_strlit("posted");
            reveal_strlit("verified");
        }
        None
    } else {
        proof {
            reveal_strlit("scheduled");
            reveal_strlit("posted");
            reveal_strlit("verified");
        }
        Some("edited")
    }
}

/// The parameters of the final's asset row: id, root, path, file name, size
/// and the time it was filed.
pub fn final_asset_write(asset_id: &str, root_id: &str, new_rel: &str, filename: &str, size_bytes: i64, now: String) -> (p: Vec<Param>)
    ensures
        crate::db::params_view(p@) == seq![
            crate::db::ParamView::Text(asset_id@),
            crate::db::ParamView::Text(root_id@),
            crate::db::ParamView::Text(new_rel@),
            crate::db::ParamView::Text(filename@),
            crate::db::ParamView::Int(size_bytes),
            crate::db::ParamView::Text(now@),
        ],
{
    let p = vec![text(asset_id), text(root_id), text(new_rel), text(filename), Param::Int(size_bytes), Param::Text(now)];
    assert(crate::db::params_view(p@) =~= seq![
        crate::db::ParamView::Text(asset_id@),
        crate::db::ParamView::Text(root_id@),
        crate::db::ParamView::Text(new_rel@),
        crate::db::ParamView::Text(filename@),
        crate::db::ParamView::Int(size_bytes),
        crate::db::ParamView::Text(now@),
    ]);
    p
}

/// The parameters that link the final to its reel: asset id, reel id.
pub fn final_link_write(asset_id: &str, reel_id: &str) -> (p: Vec<Param>)
    ensures
        crate::db::params_view(p@) == seq![crate::db::ParamView::Text(asset_id@), crate::db::ParamView::Text(reel_id@)],
{
    let p = vec![text(asset_id), text(reel_id)];
    assert(crate::db::params_view(p@) =~= seq![crate::db::ParamView::Text(asset_id@), crate::db::ParamView::Text(reel_id@)]);
    p
}

/// Record a filed final: index it as a `final` asset of the root, link it as
/// the reel's final render, move the reel to `edited` unless it is there or
/// further, and log it. Returns the new asset's id.
pub fn file_final(
    conn: &rusqlite::Connection,
    root_id: &str,
    reel: &ReelDetail,
    new_rel: &str,
    filename: &str,
    size_bytes: i64,
) -> (r: Result<String>)
    ensures
        !(r matches Err(CoreError::Invalid(_))),
        r matches Ok(id) ==> id@.len() == 36,
{
    let asset_id = ids::new_id();
    execute(
        conn,
        "INSERT INTO assets (id, root_id, rel_path, filename, kind, size_bytes, imported_at)
         VALUES (?1, ?2, ?3, ?4, 'final', ?5, ?6)",
        &final_asset_write(asset_id.as_str(), root_id, new_rel, filename, size_bytes, ids::now_iso()),
    )?;
    execute(
        conn,
        "UPDATE reels SET final_asset_id = ?1 WHERE id = ?2",
        &final_link_write(asset_id.as_str(), reel.id.as_str()),
    )?;
    if let Some(st) = final_status_move(reel.status.as_str()) {
        proof {
            reels::lemma_stage_name_parses(reels::Stage::Edited);
        }
        reels::set_status(conn, reel.id.as_str(), st, true)?;
    }
    let detail = json_object1("file", json_string(owned(filename)));
    activity::log(conn, "reel", reel.code.as_str(), "final-matched", Some(&detail))?;
    Ok(asset_id)
}

} // verus!
