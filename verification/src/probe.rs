//! Stream-metadata parsing: turns the probe collaborator's
//! `key=value`-per-line output into a stream descriptor. Width and
//! height are essential and parsing fails distinctly when either cannot
//! be determined; the frame rate tolerates both rational (`30000/1001`)
//! and plain integer forms and is informational only, as are the codec
//! name and bit rate.

use vstd::prelude::*;

verus! {

/// Immutable description of a video stream, produced once before
/// rendering begins. `width` and `height` are positive whenever parsing
/// succeeded; the frame rate is the rational `fps_num / fps_den`.
/// The source's duration is equally informational but is a fractional
/// value, so reading it is left with the caller.
#[derive(Debug, Clone, PartialEq, Eq)]
pub struct StreamDescriptor {
    pub width: u32,
    pub height: u32,
    pub fps_num: u32,
    pub fps_den: u32,
    pub video_codec: Vec<u8>,
    pub bitrate: Option<u64>,
}

/// Why parsing a probe output failed.
#[derive(Clone, Copy, PartialEq, Eq, Structural, Debug)]
pub enum ProbeError {
    /// The essential width or height was missing or zero.
    MissingDimensions,
}

/// The descriptor's fields as mathematical values.
pub struct ProbeFields {
    pub width: u32,
    pub height: u32,
    pub fps_num: u32,
    pub fps_den: u32,
    pub codec: Seq<u8>,
    pub bitrate: Option<u64>,
}

impl StreamDescriptor {
    pub open spec fn fields(self) -> ProbeFields {
        ProbeFields {
            width: self.width,
            height: self.height,
            fps_num: self.fps_num,
            fps_den: self.fps_den,
            codec: self.video_codec@,
            bitrate: self.bitrate,
        }
    }
}

/// ASCII whitespace, as stripped from keys and values.
pub open spec fn is_ws(c: u8) -> bool {
    c == 32 || c == 9 || c == 10 || c == 11 || c == 12 || c == 13
}

/// First position at or after `pos` holding byte `b`, or the length.
pub open spec fn find_from(s: Seq<u8>, b: u8, pos: int) -> int
    decreases s.len() - pos,
{
    if pos >= s.len() {
        s.len() as int
    } else if pos >= 0 && s[pos] == b {
        pos
    } else {
        find_from(s, b, pos + 1)
    }
}

/// First position at or after `pos` holding a non-whitespace byte, or
/// the length.
pub open spec fn first_non_ws(s: Seq<u8>, pos: int) -> int
    decreases s.len() - pos,
{
    if pos >= s.len() {
        s.len() as int
    } else if pos >= 0 && !is_ws(s[pos]) {
        pos
    } else {
        first_non_ws(s, pos + 1)
    }
}

/// Largest end position at or below `pos` whose preceding byte is not
/// whitespace, or 0.
pub open spec fn end_non_ws(s: Seq<u8>, pos: int) -> int
    decreases pos,
{
    if pos <= 0 {
        0
    } else if pos > s.len() {
        end_non_ws(s, s.len() as int)
    } else if !is_ws(s[pos - 1]) {
        pos
    } else {
        end_non_ws(s, pos - 1)
    }
}

/// `s` with leading and trailing ASCII whitespace removed.
pub open spec fn spec_trim(s: Seq<u8>) -> Seq<u8> {
    let a = first_non_ws(s, 0);
    if a == s.len() {
        Seq::<u8>::empty()
    } else {
        s.subrange(a, end_non_ws(s, s.len() as int))
    }
}

/// A nonempty, all-digit byte string.
pub open spec fn is_dec(s: Seq<u8>) -> bool {
    s.len() > 0 && forall|i: int| 0 <= i < s.len() ==> 48 <= #[trigger] s[i] <= 57
}

/// The value of a digit string read in base 10.
pub open spec fn dec_val(s: Seq<u8>) -> int
    decreases s.len(),
{
    if s.len() == 0 {
        0
    } else {
        dec_val(s.drop_last()) * 10 + (s.last() - 48)
    }
}

/// The decimal value of `s` when it is a digit string that fits a u32,
/// otherwise `default`.
pub open spec fn spec_parse_u32_or(s: Seq<u8>, default: u32) -> u32 {
    if is_dec(s) && dec_val(s) <= 0xFFFF_FFFF {
        dec_val(s) as u32
    } else {
        default
    }
}

pub open spec fn kw_width() -> Seq<u8> {
    seq![119u8, 105u8, 100u8, 116u8, 104u8]  // "width"
}

pub open spec fn kw_height() -> Seq<u8> {
    seq![104u8, 101u8, 105u8, 103u8, 104u8, 116u8]  // "height"
}

pub open spec fn kw_frame_rate() -> Seq<u8> {
    // "r_frame_rate"
    seq![114u8, 95u8, 102u8, 114u8, 97u8, 109u8, 101u8, 95u8, 114u8, 97u8, 116u8, 101u8]
}

pub open spec fn kw_codec_name() -> Seq<u8> {
    seq![99u8, 111u8, 100u8, 101u8, 99u8, 95u8, 110u8, 97u8, 109u8, 101u8]  // "codec_name"
}

pub open spec fn kw_bit_rate() -> Seq<u8> {
    seq![98u8, 105u8, 116u8, 95u8, 114u8, 97u8, 116u8, 101u8]  // "bit_rate"
}

/// The descriptor fields before any line is read: dimensions unknown
/// (zero), a 30/1 frame rate, codec "Unknown", no bit rate.
pub open spec fn init_fields() -> ProbeFields {
    ProbeFields {
        width: 0,
        height: 0,
        fps_num: 30,
        fps_den: 1,
        codec: seq![85u8, 110u8, 107u8, 110u8, 111u8, 119u8, 110u8],  // "Unknown"
        bitrate: None,
    }
}

/// How one `key=value` line updates the fields. A line without `=` is
/// ignored. The key and value are trimmed. An unparsable width or
/// height counts as 0; a rational frame rate `num/den` is taken only
/// when it has exactly one slash and a nonzero denominator, a plain
/// frame rate falls back to 30 when unparsable; a bit rate is taken
/// only when it is a plain decimal.
pub open spec fn apply_line(f: ProbeFields, line: Seq<u8>) -> ProbeFields {
    let ep = find_from(line, 61, 0);
    if ep == line.len() {
        f
    } else {
        let key = spec_trim(line.subrange(0, ep));
        let value = spec_trim(line.subrange(ep + 1, line.len() as int));
        if key == kw_width() {
            ProbeFields { width: spec_parse_u32_or(value, 0), ..f }
        } else if key == kw_height() {
            ProbeFields { height: spec_parse_u32_or(value, 0), ..f }
        } else if key == kw_frame_rate() {
            let slash = find_from(value, 47, 0);
            if slash < value.len() {
                if find_from(value, 47, slash + 1) == value.len() {
                    let num = spec_parse_u32_or(value.subrange(0, slash), 0);
                    let den = spec_parse_u32_or(
                        value.subrange(slash + 1, value.len() as int), 1);
                    if den != 0 {
                        ProbeFields { fps_num: num, fps_den: den, ..f }
                    } else {
                        f
                    }
                } else {
                    f
                }
            } else {
                ProbeFields { fps_num: spec_parse_u32_or(value, 30), fps_den: 1, ..f }
            }
        } else if key == kw_codec_name() {
            ProbeFields { codec: value, ..f }
        } else if key == kw_bit_rate() {
            if is_dec(value) && dec_val(value) <= 0xFFFF_FFFF_FFFF_FFFF {
                ProbeFields { bitrate: Some(dec_val(value) as u64), ..f }
            } else {
                f
            }
        } else {
            f
        }
    }
}

/// Fold `apply_line` over the newline-separated lines of `s`, starting
/// at byte `pos`.
pub open spec fn probe_fold_from(s: Seq<u8>, pos: int, f: ProbeFields) -> ProbeFields
    decreases s.len() - pos,
    via probe_fold_from_decreases
{
    if pos < 0 || pos >= s.len() {
        f
    } else {
        let e = find_from(s, 10, pos);
        if e >= s.len() {
            apply_line(f, s.subrange(pos, s.len() as int))
        } else {
            probe_fold_from(s, e + 1, apply_line(f, s.subrange(pos, e)))
        }
    }
}

/// The parse of a whole probe output: every line folded over the
/// initial fields; the result is an error exactly when the final width
/// or height is zero.
pub open spec fn spec_parse_probe(s: Seq<u8>) -> Result<ProbeFields, ProbeError> {
    let f = probe_fold_from(s, 0, init_fields());
    if f.width == 0 || f.height == 0 {
        Err(ProbeError::MissingDimensions)
    } else {
        Ok(f)
    }
}

/// The last trimmed `codec_name` value among the lines of `s` from
/// `pos`, if any: how the audio-stream probe output is read.
pub open spec fn audio_fold_from(s: Seq<u8>, pos: int, cur: Option<Seq<u8>>) -> Option<Seq<u8>>
    decreases s.len() - pos,
    via audio_fold_from_decreases
{
    if pos < 0 || pos >= s.len() {
        cur
    } else {
        let e = find_from(s, 10, pos);
        if e >= s.len() {
            apply_audio_line(cur, s.subrange(pos, s.len() as int))
        } else {
            audio_fold_from(s, e + 1, apply_audio_line(cur, s.subrange(pos, e)))
        }
    }
}

/// How one line updates the audio codec: a `codec_name=...` line
/// replaces it, everything else leaves it.
pub open spec fn apply_audio_line(cur: Option<Seq<u8>>, line: Seq<u8>) -> Option<Seq<u8>> {
    let ep = find_from(line, 61, 0);
    if ep == line.len() {
        cur
    } else if spec_trim(line.subrange(0, ep)) == kw_codec_name() {
        Some(spec_trim(line.subrange(ep + 1, line.len() as int)))
    } else {
        cur
    }
}

#[via_fn]
proof fn probe_fold_from_decreases(s: Seq<u8>, pos: int, f: ProbeFields) {
    if 0 <= pos < s.len() {
        lemma_find_from_bounds(s, 10, pos);
    }
}

#[via_fn]
proof fn audio_fold_from_decreases(s: Seq<u8>, pos: int, cur: Option<Seq<u8>>) {
    if 0 <= pos < s.len() {
        lemma_find_from_bounds(s, 10, pos);
    }
}

/// `find_from` stays within `[pos, len]` and lands on `b` or the end.
pub proof fn lemma_find_from_bounds(s: Seq<u8>, b: u8, pos: int)
    requires
        0 <= pos <= s.len(),
    ensures
        pos <= find_from(s, b, pos) <= s.len(),
        find_from(s, b, pos) < s.len() ==> s[find_from(s, b, pos)] == b,
    decreases s.len() - pos,
{
    if pos < s.len() && s[pos] != b {
        lemma_find_from_bounds(s, b, pos + 1);
    }
}


/// Nonnegativity of decimal values of digit strings.
proof fn lemma_dec_val_nonneg(s: Seq<u8>)
    requires
        forall|i: int| 0 <= i < s.len() ==> 48 <= #[trigger] s[i] <= 57,
    ensures
        dec_val(s) >= 0,
    decreases s.len(),
{
    if s.len() > 0 {
        assert(forall|i: int| 0 <= i < s.drop_last().len()
            ==> 48 <= #[trigger] s.drop_last()[i] <= 57);
        lemma_dec_val_nonneg(s.drop_last());
    }
}

/// Reading more digits never decreases the value.
proof fn lemma_dec_val_prefix_le(s: Seq<u8>, i: int)
    requires
        0 <= i <= s.len(),
        forall|j: int| 0 <= j < s.len() ==> 48 <= #[trigger] s[j] <= 57,
    ensures
        dec_val(s.take(i)) <= dec_val(s),
    decreases s.len() - i,
{
    if i == s.len() {
        assert(s.take(i) =~= s);
    } else {
        lemma_dec_val_prefix_le(s, i + 1);
        assert(s.take(i + 1).drop_last() =~= s.take(i));
        assert(s.take(i + 1).last() == s[i]);
        assert(forall|j: int| 0 <= j < s.take(i).len()
            ==> 48 <= #[trigger] s.take(i)[j] <= 57);
        lemma_dec_val_nonneg(s.take(i));
        assert(dec_val(s.take(i + 1)) == dec_val(s.take(i)) * 10 + (s[i] - 48));
    }
}

/// Whether `c` is ASCII whitespace.
fn is_ws_byte(c: u8) -> (r: bool)
    ensures
        r == is_ws(c),
{
    c == 32 || c == 9 || c == 10 || c == 11 || c == 12 || c == 13
}

/// First index at or after `start` holding `b`, or the length.
fn find_byte_from(s: &Vec<u8>, b: u8, start: usize) -> (i: usize)
    requires
        start <= s@.len(),
    ensures
        i == find_from(s@, b, start as int),
        start <= i <= s@.len(),
{
    let mut i: usize = start;
    while i < s.len()
        invariant
            start <= i <= s@.len(),
            find_from(s@, b, start as int) == find_from(s@, b, i as int),
        decreases s@.len() - i,
    {
        if s[i] == b {
            return i;
        }
        i = i + 1;
    }
    i
}

/// The bytes of `s` in `[lo, hi)` as a fresh vector.
fn copy_range(s: &Vec<u8>, lo: usize, hi: usize) -> (v: Vec<u8>)
    requires
        lo <= hi <= s@.len(),
    ensures
        v@ == s@.subrange(lo as int, hi as int),
{
    let mut v: Vec<u8> = Vec::new();
    let mut i: usize = lo;
    while i < hi
        invariant
            lo <= i <= hi <= s@.len(),
            v@.len() == i - lo,
            forall|j: int| 0 <= j < v@.len() ==> v@[j] == s@[lo + j],
        decreases hi - i,
    {
        v.push(s[i]);
        i = i + 1;
    }
    proof {
        assert(v@ =~= s@.subrange(lo as int, hi as int));
    }
    v
}

/// `s` with leading and trailing ASCII whitespace removed.
fn trim_bytes(s: &Vec<u8>) -> (v: Vec<u8>)
    ensures
        v@ == spec_trim(s@),
{
    let n: usize = s.len();
    let mut a: usize = 0;
    while a < n && is_ws_byte(s[a])
        invariant
            a <= n,
            n == s@.len(),
            first_non_ws(s@, 0) == first_non_ws(s@, a as int),
        decreases n - a,
    {
        a = a + 1;
    }
    if a == n {
        let v: Vec<u8> = Vec::new();
        proof {
            assert(v@ =~= spec_trim(s@));
        }
        return v;
    }
    let mut b: usize = n;
    while b > a && is_ws_byte(s[b - 1])
        invariant
            a < b <= n || b == n,
            n == s@.len(),
            a < n,
            !is_ws(s@[a as int]),
            first_non_ws(s@, 0) == a,
            end_non_ws(s@, n as int) == end_non_ws(s@, b as int),
        decreases b,
    {
        b = b - 1;
    }
    copy_range(s, a, b)
}

/// Parse `s` as a base-10 number: the value exactly when `s` is a
/// nonempty digit string whose value fits a u64.
fn parse_dec(s: &Vec<u8>) -> (r: Option<u64>)
    ensures
        match r {
            Some(v) => is_dec(s@) && dec_val(s@) <= 0xFFFF_FFFF_FFFF_FFFF && v == dec_val(s@),
            None => !is_dec(s@) || dec_val(s@) > 0xFFFF_FFFF_FFFF_FFFF,
        },
{
    if s.len() == 0 {
        return None;
    }
    let mut acc: u64 = 0;
    let mut i: usize = 0;
    while i < s.len()
        invariant
            i <= s@.len(),
            forall|j: int| 0 <= j < i ==> 48 <= #[trigger] s@[j] <= 57,
            acc == dec_val(s@.take(i as int)),
        decreases s@.len() - i,
    {
        let c = s[i];
        if c < 48 || c > 57 {
            return None;
        }
        let d: u64 = (c - 48) as u64;
        proof {
            assert(s@.take(i as int + 1).drop_last() =~= s@.take(i as int));
            assert(s@.take(i as int + 1).last() == s@[i as int]);
        }
        if acc > (0xFFFF_FFFF_FFFF_FFFFu64 - d) / 10 {
            proof {
                assert(acc * 10 + d > 0xFFFF_FFFF_FFFF_FFFF);
                assert(dec_val(s@.take(i as int + 1)) > 0xFFFF_FFFF_FFFF_FFFF);
                if is_dec(s@) {
                    lemma_dec_val_prefix_le(s@, i as int + 1);
                }
            }
            return None;
        }
        proof {
            assert(acc * 10 + d <= 0xFFFF_FFFF_FFFF_FFFF);
        }
        acc = acc * 10 + d;
        i = i + 1;
    }
    proof {
        assert(s@.take(s@.len() as int) =~= s@);
    }
    Some(acc)
}

/// Parse `s` as a u32, or `default` when it is not one.
fn parse_u32_or(s: &Vec<u8>, default: u32) -> (r: u32)
    ensures
        r == spec_parse_u32_or(s@, default),
{
    match parse_dec(s) {
        Some(v) => if v <= 0xFFFF_FFFF { v as u32 } else { default },
        None => default,
    }
}

fn is_kw_width(s: &Vec<u8>) -> (r: bool)
    ensures
        r == (s@ == kw_width()),
{
    let r = s.len() == 5 && s[0] == 119 && s[1] == 105 && s[2] == 100 && s[3] == 116
        && s[4] == 104;
    proof {
        if r {
            assert(s@ =~= kw_width());
        }
    }
    r
}

fn is_kw_height(s: &Vec<u8>) -> (r: bool)
    ensures
        r == (s@ == kw_height()),
{
    let r = s.len() == 6 && s[0] == 104 && s[1] == 101 && s[2] == 105 && s[3] == 103
        && s[4] == 104 && s[5] == 116;
    proof {
        if r {
            assert(s@ =~= kw_height());
        }
    }
    r
}

fn is_kw_frame_rate(s: &Vec<u8>) -> (r: bool)
    ensures
        r == (s@ == kw_frame_rate()),
{
    let r = s.len() == 12 && s[0] == 114 && s[1] == 95 && s[2] == 102 && s[3] == 114
        && s[4] == 97 && s[5] == 109 && s[6] == 101 && s[7] == 95 && s[8] == 114
        && s[9] == 97 && s[10] == 116 && s[11] == 101;
    proof {
        if r {
            assert(s@ =~= kw_frame_rate());
        }
    }
    r
}

fn is_kw_codec_name(s: &Vec<u8>) -> (r: bool)
    ensures
        r == (s@ == kw_codec_name()),
{
    let r = s.len() == 10 && s[0] == 99 && s[1] == 111 && s[2] == 100 && s[3] == 101
        && s[4] == 99 && s[5] == 95 && s[6] == 110 && s[7] == 97 && s[8] == 109
        && s[9] == 101;
    proof {
        if r {
            assert(s@ =~= kw_codec_name());
        }
    }
    r
}

fn is_kw_bit_rate(s: &Vec<u8>) -> (r: bool)
    ensures
        r == (s@ == kw_bit_rate()),
{
    let r = s.len() == 8 && s[0] == 98 && s[1] == 105 && s[2] == 116 && s[3] == 95
        && s[4] == 114 && s[5] == 97 && s[6] == 116 && s[7] == 101;
    proof {
        if r {
            assert(s@ =~= kw_bit_rate());
        }
    }
    r
}

/// Apply one `key=value` line to the descriptor being built.
fn apply_probe_line(d: &mut StreamDescriptor, line: &Vec<u8>)
    ensures
        final(d).fields() == apply_line(old(d).fields(), line@),
{
    let e = find_byte_from(line, 61, 0);
    if e == line.len() {
        return;
    }
    let key_raw = copy_range(line, 0, e);
    let key = trim_bytes(&key_raw);
    let value_raw = copy_range(line, e + 1, line.len());
    let value = trim_bytes(&value_raw);
    if is_kw_width(&key) {
        d.width = parse_u32_or(&value, 0);
    } else if is_kw_height(&key) {
        d.height = parse_u32_or(&value, 0);
    } else if is_kw_frame_rate(&key) {
        let slash = find_byte_from(&value, 47, 0);
        if slash < value.len() {
            let slash2 = find_byte_from(&value, 47, slash + 1);
            if slash2 == value.len() {
                let num_s = copy_range(&value, 0, slash);
                let den_s = copy_range(&value, slash + 1, value.len());
                let num = parse_u32_or(&num_s, 0);
                let den = parse_u32_or(&den_s, 1);
                if den != 0 {
                    d.fps_num = num;
                    d.fps_den = den;
                }
            }
        } else {
            d.fps_num = parse_u32_or(&value, 30);
            d.fps_den = 1;
        }
    } else if is_kw_codec_name(&key) {
        d.video_codec = value;
    } else if is_kw_bit_rate(&key) {
        match parse_dec(&value) {
            Some(v) => {
                d.bitrate = Some(v);
            },
            None => {},
        }
    }
}

/// Parse the video-stream probe output. Succeeds exactly when the
/// folded lines yield a positive width and height; fails distinctly
/// when either essential dimension is missing or zero.
pub fn parse_video_metadata(s: &Vec<u8>) -> (r: Result<StreamDescriptor, ProbeError>)
    ensures
        match r {
            Ok(d) => spec_parse_probe(s@) == Ok::<ProbeFields, ProbeError>(d.fields())
                && d.width > 0 && d.height > 0,
            Err(e) => spec_parse_probe(s@) == Err::<ProbeFields, ProbeError>(e),
        },
{
    let mut codec: Vec<u8> = Vec::new();
    codec.push(85);
    codec.push(110);
    codec.push(107);
    codec.push(110);
    codec.push(111);
    codec.push(119);
    codec.push(110);
    let mut d = StreamDescriptor {
        width: 0,
        height: 0,
        fps_num: 30,
        fps_den: 1,
        video_codec: codec,
        bitrate: None,
    };
    proof {
        assert(d.fields().codec =~= init_fields().codec);
        assert(d.fields() == init_fields());
    }
    let mut pos: usize = 0;
    while pos < s.len()
        invariant
            pos <= s@.len(),
            probe_fold_from(s@, pos as int, d.fields())
                == probe_fold_from(s@, 0, init_fields()),
        decreases s@.len() - pos,
    {
        let ghost pre = d.fields();
        let e = find_byte_from(s, 10, pos);
        let line = copy_range(s, pos, e);
        apply_probe_line(&mut d, &line);
        pos = if e == s.len() { e } else { e + 1 };
    }
    if d.width == 0 || d.height == 0 {
        Err(ProbeError::MissingDimensions)
    } else {
        Ok(d)
    }
}

/// Parse the audio-stream probe output: the last codec name it names,
/// if any.
pub fn parse_audio_codec(s: &Vec<u8>) -> (r: Option<Vec<u8>>)
    ensures
        match r {
            Some(v) => audio_fold_from(s@, 0, None) == Some(v@),
            None => audio_fold_from(s@, 0, None) is None,
        },
{
    let mut cur: Option<Vec<u8>> = None;
    let mut pos: usize = 0;
    while pos < s.len()
        invariant
            pos <= s@.len(),
            audio_fold_from(s@, pos as int, opt_bytes_view(cur))
                == audio_fold_from(s@, 0, None),
        decreases s@.len() - pos,
    {
        let ghost pre = opt_bytes_view(cur);
        let e = find_byte_from(s, 10, pos);
        let line = copy_range(s, pos, e);
        let ep = find_byte_from(&line, 61, 0);
        if ep != line.len() {
            let key_raw = copy_range(&line, 0, ep);
            let key = trim_bytes(&key_raw);
            if is_kw_codec_name(&key) {
                let value_raw = copy_range(&line, ep + 1, line.len());
                cur = Some(trim_bytes(&value_raw));
            }
        }
        proof {
            assert(opt_bytes_view(cur) == apply_audio_line(pre, line@));
        }
        pos = if e == s.len() { e } else { e + 1 };
    }
    cur
}

/// The view of an optional byte vector.
pub open spec fn opt_bytes_view(o: Option<Vec<u8>>) -> Option<Seq<u8>> {
    match o {
        Some(v) => Some(v@),
        None => None,
    }
}

} // verus!
