//! Reading the header of a BUSY Bar `.anim` file.
//!
//! `.anim` is the bar's native animation container, signature `bicycle0`. The
//! bar accepts a malformed animation without complaint and then shows solid
//! magenta, so every rule its loader applies to the header is checked here,
//! before anything is uploaded. Frame data is the device's business.
//!
//! Layout of the 36-byte header, little endian:
//! `0..8` signature, `8` flags, `9` width, `10` height, `11` colour format,
//! `12` fps, `16..20` sections chunk length, `20..24` frames chunk length,
//! `24..28` section count, `28..32` stored frames, `32..36` displayed frames.
//! The sections chunk follows; each section is 13 fixed bytes (start, end,
//! first-frame offset, duration override) and a NUL-terminated name.

use vstd::prelude::*;
use vstd::string::*;

use crate::error::{is_usage, CliError};
use crate::strings::{decimal, decimal_string, lossy_string, utf8_lossy, all_ascii};

verus! {

/// The container's magic, `bicycle0`.
pub open spec fn signature() -> Seq<u8> {
    seq![98u8, 105u8, 99u8, 121u8, 99u8, 108u8, 101u8, 48u8]
}

/// The mandatory first section's name, `default`.
pub open spec fn default_name() -> Seq<u8> {
    seq![100u8, 101u8, 102u8, 97u8, 117u8, 108u8, 116u8]
}

/// How pixels are stored, named as the firmware names them.
#[derive(Debug, Clone, Copy, PartialEq, Eq)]
pub enum ColorFormat {
    Rgb888,
    Gray4,
    Argb8888,
}

/// The colour format a header byte names, if any.
pub open spec fn spec_color_format(value: u8) -> Option<ColorFormat> {
    if value == 0 {
        Some(ColorFormat::Rgb888)
    } else if value == 1 {
        Some(ColorFormat::Gray4)
    } else if value == 2 {
        Some(ColorFormat::Argb8888)
    } else {
        None
    }
}

/// The lower-case label of a colour format.
pub open spec fn color_format_label(f: ColorFormat) -> Seq<char> {
    match f {
        ColorFormat::Rgb888 => "rgb888"@,
        ColorFormat::Gray4 => "gray4"@,
        ColorFormat::Argb8888 => "argb8888"@,
    }
}

/// The header's colour-format byte names one of three distinct formats,
/// each by exactly one byte, in the firmware's order: 0 is rgb888, 1 is
/// gray4 and 2 is argb8888; any other byte names none.
pub proof fn lemma_color_format_bytes(b: u8, c: u8)
    ensures
        spec_color_format(b) is Some <==> b <= 2,
        spec_color_format(b) is Some && spec_color_format(b) == spec_color_format(c) ==> b == c,
        spec_color_format(b) matches Some(f) ==> color_format_label(f) == seq![
            "rgb888"@,
            "gray4"@,
            "argb8888"@,
        ][b as int],
{
}

impl ColorFormat {
    fn from_byte(value: u8) -> (f: Option<ColorFormat>)
        ensures
            f == spec_color_format(value),
    {
        match value {
            0 => Some(ColorFormat::Rgb888),
            1 => Some(ColorFormat::Gray4),
            2 => Some(ColorFormat::Argb8888),
            _ => None,
        }
    }

    /// The format's lower-case label, as upload summaries print it.
    pub fn label(self) -> (s: &'static str)
        ensures
            s@ == color_format_label(self),
    {
        match self {
            ColorFormat::Rgb888 => "rgb888",
            ColorFormat::Gray4 => "gray4",
            ColorFormat::Argb8888 => "argb8888",
        }
    }
}

/// What the header of a `.anim` says about it.
#[derive(Debug, Clone, PartialEq, Eq)]
pub struct Anim {
    pub width: u8,
    pub height: u8,
    pub color_format: ColorFormat,
    pub fps: u8,
    /// Frames as played, counting a held frame once per display frame.
    pub display_frames: u32,
    /// Frames as stored. Lower than `display_frames` when frames repeat.
    pub file_frames: u32,
    /// Every section name, `default` first.
    pub sections: Vec<String>,
}

impl Anim {
    /// Section names other than the mandatory `default`.
    pub fn named_sections(&self) -> (names: &[String])
        ensures
            self.sections@.len() == 0 ==> names@ == Seq::<String>::empty(),
            self.sections@.len() > 0 ==> names@ == self.sections@.subrange(1, self.sections@.len() as int),
    {
        let all = self.sections.as_slice();
        if all.len() == 0 {
            all
        } else {
            let (_, rest) = all.split_at(1);
            rest
        }
    }
}

/// Whether the bytes open with the `.anim` signature.
pub open spec fn spec_is_anim(b: Seq<u8>) -> bool {
    b.len() >= 8 && b.subrange(0, 8) == signature()
}

/// Whether these bytes open with the `.anim` signature. The file's extension
/// is a hint; this is the fact.
pub fn is_anim(bytes: &[u8]) -> (r: bool)
    ensures
        r == spec_is_anim(bytes@),
{
    let r = bytes.len() >= 8 && bytes[0] == 98u8 && bytes[1] == 105u8 && bytes[2] == 99u8
        && bytes[3] == 121u8 && bytes[4] == 99u8 && bytes[5] == 108u8 && bytes[6] == 101u8
        && bytes[7] == 48u8;
    proof {
        if r {
            assert(bytes@.subrange(0, 8) =~= signature());
        } else if bytes@.len() >= 8 {
            assert(bytes@.subrange(0, 8)[0] == bytes@[0]);
            assert(bytes@.subrange(0, 8)[1] == bytes@[1]);
            assert(bytes@.subrange(0, 8)[2] == bytes@[2]);
            assert(bytes@.subrange(0, 8)[3] == bytes@[3]);
            assert(bytes@.subrange(0, 8)[4] == bytes@[4]);
            assert(bytes@.subrange(0, 8)[5] == bytes@[5]);
            assert(bytes@.subrange(0, 8)[6] == bytes@[6]);
            assert(bytes@.subrange(0, 8)[7] == bytes@[7]);
        }
    }
    r
}

/// The little-endian `u32` at `off`.
pub open spec fn le32(b: Seq<u8>, off: int) -> int {
    b[off] as int + b[off + 1] as int * 256 + b[off + 2] as int * 65536 + b[off + 3] as int
        * 16777216
}

fn u32_at(bytes: &[u8], offset: usize) -> (v: u32)
    requires
        offset + 4 <= bytes@.len(),
    ensures
        v == le32(bytes@, offset as int),
{
    (bytes[offset] as u32) + (bytes[offset + 1] as u32) * 256 + (bytes[offset + 2] as u32) * 65536
        + (bytes[offset + 3] as u32) * 16777216
}

/// Length of the sections chunk, from the header.
pub open spec fn header_sections_len(b: Seq<u8>) -> int {
    le32(b, 16)
}

/// Length of the frames chunk, from the header.
pub open spec fn header_frames_len(b: Seq<u8>) -> int {
    le32(b, 20)
}

/// The section count the header claims.
pub open spec fn header_section_count(b: Seq<u8>) -> int {
    le32(b, 24)
}

/// The sections chunk.
pub open spec fn sections_chunk(b: Seq<u8>) -> Seq<u8> {
    b.subrange(36, 36 + header_sections_len(b))
}

/// How many non-NUL bytes run from `k`.
pub open spec fn nul_len(c: Seq<u8>, k: int) -> nat
    decreases c.len() - k,
{
    if k < 0 || k >= c.len() || c[k] == 0 {
        0
    } else {
        1 + nul_len(c, k + 1)
    }
}

/// The name of the section whose descriptor starts at `pos`.
pub open spec fn name_at(c: Seq<u8>, pos: int) -> Seq<u8> {
    c.subrange(pos + 13, pos + 13 + nul_len(c, pos + 13))
}

/// Where the descriptor after the one at `pos` starts.
pub open spec fn next_section(c: Seq<u8>, pos: int) -> int {
    pos + 13 + nul_len(c, pos + 13) + 1
}

/// The section names found walking the chunk from `pos`: a descriptor is
/// read while more than its fixed part remains.
pub open spec fn names_from(c: Seq<u8>, pos: int) -> Seq<Seq<u8>>
    decreases c.len() - pos,
{
    if 0 <= pos && pos + 13 < c.len() {
        if next_section(c, pos) <= c.len() {
            seq![name_at(c, pos)] + names_from(c, next_section(c, pos))
        } else {
            seq![name_at(c, pos)]
        }
    } else {
        Seq::empty()
    }
}

/// Every section name in a sections chunk.
pub open spec fn section_names(c: Seq<u8>) -> Seq<Seq<u8>> {
    names_from(c, 0)
}

/// The diagnosis printed for every malformed file.
pub open spec fn malformed_text(detail: Seq<char>) -> Seq<char> {
    "not a usable .anim file: "@ + detail
        + "\nThe bar accepts a malformed animation without complaint and then displays solid magenta, so `busy` checks it here instead."@
}

/// What is wrong with the `default` section, if anything.
pub open spec fn default_failure(c: Seq<u8>, sl: int, display_frames: int) -> Option<Seq<char>> {
    let name = name_at(c, 0);
    let start = le32(c, 0);
    let end = le32(c, 4);
    let frame_offs = le32(c, 8);
    let expected = (36 + sl) as u32;
    if name != default_name() {
        Some("the first section is `"@ + utf8_lossy(name) + "` and must be `default`"@)
    } else if start != 0 || end != display_frames - 1 {
        Some(
            "`default` covers frames "@ + decimal(start as nat) + ".."@ + decimal(end as nat)
                + " and must cover 0.."@ + decimal((display_frames - 1) as nat),
        )
    } else if frame_offs != expected {
        Some(
            "`default` points at byte "@ + decimal(frame_offs as nat)
                + " for its first frame; the frames chunk starts at "@ + decimal(expected as nat),
        )
    } else {
        None
    }
}

/// What is wrong with the sections chunk, if anything.
pub open spec fn sections_failure(c: Seq<u8>, sl: int, count: int, display_frames: int) -> Option<
    Seq<char>,
> {
    if c.len() == 0 || c.last() != 0 {
        Some(
            "the sections chunk does not end with a NUL; the last section name is unterminated"@,
        )
    } else if c.len() > 13 && default_failure(c, sl, display_frames) is Some {
        default_failure(c, sl, display_frames)
    } else if section_names(c).len() as u32 != count {
        Some(
            "the header claims "@ + decimal(count as nat) + " section(s) and the chunk holds "@
                + decimal(section_names(c).len()),
        )
    } else {
        None
    }
}

/// What is wrong with the file, checked in the firmware loader's order; `None`
/// when it is a usable animation.
pub open spec fn parse_failure(b: Seq<u8>) -> Option<Seq<char>> {
    if !spec_is_anim(b) {
        Some("expected it to start with `bicycle0`"@)
    } else if b.len() < 36 {
        Some("the header needs 36 bytes and the file has "@ + decimal(b.len()))
    } else if b[8] != 0 {
        Some(
            "flags must be 0 and are "@ + decimal(b[8] as nat)
                + "; the firmware defines no flag yet and rejects every other value"@,
        )
    } else if spec_color_format(b[11]) is None {
        Some("colour format "@ + decimal(b[11] as nat) + " is not one of 0-2"@)
    } else if b[12] == 0 {
        Some("0 fps: it would never advance a frame"@)
    } else if header_section_count(b) == 0 {
        Some("no sections; `default` is mandatory"@)
    } else if le32(b, 32) == 0 {
        Some("no frames"@)
    } else if 36 + header_sections_len(b) + header_frames_len(b) > usize::MAX {
        Some("the chunk lengths in the header overflow"@)
    } else if b.len() != 36 + header_sections_len(b) + header_frames_len(b) {
        Some(
            "the header describes "@ + decimal((36 + header_sections_len(b) + header_frames_len(b)) as nat)
                + " bytes and the file is "@ + decimal(b.len()),
        )
    } else {
        sections_failure(sections_chunk(b), header_sections_len(b), header_section_count(b), le32(b, 32))
    }
}

/// Whether `a` is what the header of `b` says, its sections decoded from the
/// names in the sections chunk.
pub open spec fn describes(a: Anim, b: Seq<u8>) -> bool {
    &&& a.width == b[9]
    &&& a.height == b[10]
    &&& spec_color_format(b[11]) == Some(a.color_format)
    &&& a.fps == b[12]
    &&& a.file_frames == le32(b, 28)
    &&& a.display_frames == le32(b, 32)
    &&& a.sections@.len() == section_names(sections_chunk(b)).len()
    &&& forall|i: int|
        0 <= i < a.sections@.len() ==> #[trigger] a.sections@[i]@ == utf8_lossy(
            section_names(sections_chunk(b))[i],
        )
}

fn malformed(detail: String) -> (e: CliError)
    ensures
        is_usage(e, malformed_text(detail@)),
{
    let mut m = String::from_str("not a usable .anim file: ");
    m.append(detail.as_str());
    m.append(
        "\nThe bar accepts a malformed animation without complaint and then displays solid magenta, so `busy` checks it here instead.",
    );
    CliError::Usage(m)
}

fn with_number(a: &str, n: u64) -> (s: String)
    ensures
        s@ == a@ + decimal(n as nat),
{
    let mut s = String::from_str(a);
    let digits = decimal_string(n);
    s.append(digits.as_str());
    s
}

fn text2(a: &str, n: u64, b: &str) -> (s: String)
    ensures
        s@ == a@ + decimal(n as nat) + b@,
{
    let mut s = String::from_str(a);
    let digits = decimal_string(n);
    s.append(digits.as_str());
    s.append(b);
    s
}

fn text4(a: &str, n: u64, b: &str, m: u64) -> (s: String)
    ensures
        s@ == a@ + decimal(n as nat) + b@ + decimal(m as nat),
{
    let mut s = text2(a, n, b);
    let digits = decimal_string(m);
    s.append(digits.as_str());
    s
}

proof fn lemma_nul_len_bound(c: Seq<u8>, k: int)
    requires
        0 <= k <= c.len(),
    ensures
        k + nul_len(c, k) <= c.len(),
        k + nul_len(c, k) < c.len() ==> c[k + nul_len(c, k)] == 0,
        forall|j: int| k <= j < k + nul_len(c, k) ==> c[j] != 0,
    decreases c.len() - k,
{
    if k < c.len() && c[k] != 0 {
        lemma_nul_len_bound(c, k + 1);
    }
}

proof fn lemma_names_count(c: Seq<u8>, pos: int)
    requires
        0 <= pos <= c.len(),
    ensures
        names_from(c, pos).len() <= c.len() - pos,
    decreases c.len() - pos,
{
    if 0 <= pos && pos + 13 < c.len() {
        if next_section(c, pos) <= c.len() {
            lemma_names_count(c, next_section(c, pos));
        }
    }
}

/// Parse and validate the header, applying the rules the firmware's loader
/// applies. Every malformed file is a usage error naming the first rule it
/// breaks.
pub fn parse(bytes: &[u8]) -> (res: Result<Anim, CliError>)
    ensures
        match parse_failure(bytes@) {
            Some(detail) => res matches Err(e) && is_usage(e, malformed_text(detail)),
            None => res matches Ok(a) && describes(a, bytes@),
        },
        res matches Ok(a) ==> a.sections@.len() > 0 && a.sections@[0]@ == "default"@,
{
    if !is_anim(bytes) {
        let detail = String::from_str("expected it to start with `bicycle0`");
        return Err(malformed(detail));
    }
    if bytes.len() < 36 {
        let detail = with_number("the header needs 36 bytes and the file has ", bytes.len() as u64);
        proof {
            assert(detail@ =~= "the header needs 36 bytes and the file has "@ + decimal(bytes@.len()));
        }
        return Err(malformed(detail));
    }
    let flags = bytes[8];
    if flags != 0 {
        let detail = text2(
            "flags must be 0 and are ",
            flags as u64,
            "; the firmware defines no flag yet and rejects every other value",
        );
        return Err(malformed(detail));
    }
    let width = bytes[9];
    let height = bytes[10];
    let color_format = match ColorFormat::from_byte(bytes[11]) {
        Some(f) => f,
        None => {
            let detail = text2("colour format ", bytes[11] as u64, " is not one of 0-2");
            return Err(malformed(detail));
        },
    };
    let fps = bytes[12];
    if fps == 0 {
        return Err(malformed(String::from_str("0 fps: it would never advance a frame")));
    }
    let sections_len = u32_at(bytes, 16) as usize;
    let frames_len = u32_at(bytes, 20) as usize;
    let count = u32_at(bytes, 24);
    let file_frames = u32_at(bytes, 28);
    let display_frames = u32_at(bytes, 32);
    if count == 0 {
        return Err(malformed(String::from_str("no sections; `default` is mandatory")));
    }
    if display_frames == 0 {
        return Err(malformed(String::from_str("no frames")));
    }
    let expected = match 36usize.checked_add(sections_len) {
        Some(total) => total.checked_add(frames_len),
        None => None,
    };
    let expected = match expected {
        Some(total) => total,
        None => {
            return Err(malformed(String::from_str("the chunk lengths in the header overflow")));
        },
    };
    if bytes.len() != expected {
        let detail = text4(
            "the header describes ",
            expected as u64,
            " bytes and the file is ",
            bytes.len() as u64,
        );
        proof {
            assert(detail@ =~= "the header describes "@ + decimal(expected as nat)
                + " bytes and the file is "@ + decimal(bytes@.len()));
        }
        return Err(malformed(detail));
    }
    let sections = match parse_sections(bytes, sections_len, count, display_frames) {
        Ok(names) => names,
        Err(detail) => {
            return Err(malformed(detail));
        },
    };
    Ok(Anim { width, height, color_format, fps, display_frames, file_frames, sections })
}

/// Read the section names from the sections chunk at `bytes[36..36 + sections_len]`.
#[verifier::spinoff_prover]
#[verifier::rlimit(30)]
fn parse_sections(bytes: &[u8], sections_len: usize, count: u32, display_frames: u32) -> (res:
    Result<Vec<String>, String>)
    requires
        bytes@.len() >= 36,
        sections_len == header_sections_len(bytes@),
        count == header_section_count(bytes@),
        display_frames == le32(bytes@, 32),
        display_frames > 0,
        36 + sections_len <= bytes@.len(),
    ensures
        match sections_failure(sections_chunk(bytes@), sections_len as int, count as int, display_frames as int) {
            Some(detail) => res matches Err(d) && d@ == detail,
            None => res matches Ok(names) && names@.len() == section_names(sections_chunk(bytes@)).len()
                && (names@.len() > 0 ==> names@[0]@ == "default"@)
                && forall|i: int|
                    0 <= i < names@.len() ==> #[trigger] names@[i]@ == utf8_lossy(
                        section_names(sections_chunk(bytes@))[i],
                    ),
        },
{
    let ghost c = sections_chunk(bytes@);
    let total = bytes.len();
    let len = sections_len;
    if len == 0 || bytes[36 + len - 1] != 0 {
        return Err(
            String::from_str(
                "the sections chunk does not end with a NUL; the last section name is unterminated",
            ),
        );
    }
    assert(c.last() == 0);
    let mut names: Vec<String> = Vec::new();
    let ghost mut found: Seq<Seq<u8>> = Seq::empty();
    let mut pos: usize = 0;
    while pos + 13 < len
        invariant
            c == sections_chunk(bytes@),
            c.len() == len,
            36 + len <= bytes@.len(),
            bytes@.len() == total,
            len == sections_len,
            len > 0,
            c.last() == 0,
            0 <= pos <= len,
            found + names_from(c, pos as int) == section_names(c),
            names@.len() == found.len(),
            forall|i: int| 0 <= i < names@.len() ==> #[trigger] names@[i]@ == utf8_lossy(found[i]),
            found.len() == 0 <==> pos == 0,
            found.len() > 0 ==> len > 13 && default_failure(c, sections_len as int, display_frames as int) is None,
            found.len() > 0 ==> names@[0]@ == "default"@,
            sections_len == header_sections_len(bytes@),
            display_frames == le32(bytes@, 32),
            display_frames > 0,
        decreases len - pos,
    {
        let start = pos + 13;
        let mut end = start;
        let mut name: Vec<u8> = Vec::new();
        proof {
            lemma_nul_len_bound(c, start as int);
        }
        while end < len && bytes[36 + end] != 0
            invariant
                c == sections_chunk(bytes@),
                c.len() == len,
                36 + len <= bytes@.len(),
                bytes@.len() == total,
                len == sections_len,
                sections_len == header_sections_len(bytes@),
                start <= end <= len,
                nul_len(c, start as int) == (end - start) + nul_len(c, end as int),
                name@ == c.subrange(start as int, end as int),
            decreases len - end,
        {
            assert(c[end as int] == bytes@[36 + end]);
            name.push(bytes[36 + end]);
            end = end + 1;
            proof {
                assert(name@ =~= c.subrange(start as int, end as int));
            }
        }
        if end < len {
            assert(c[end as int] == bytes@[36 + end]);
        }
        assert(nul_len(c, end as int) == 0);
        assert(name@ == name_at(c, pos as int));
        proof {
            lemma_nul_len_bound(c, start as int);
            assert(end < len) by {
                if end == len {
                    assert(c[len - 1] != 0);
                }
            }
        }
        if names.len() == 0 {
            match validate_default_section(bytes, &name, sections_len, display_frames) {
                Ok(()) => {},
                Err(detail) => {
                    return Err(detail);
                },
            }
        }
        let text = lossy_string(name.as_slice());
        proof {
            if names@.len() == 0 {
                assert(name@ == default_name());
                assert(all_ascii(name@));
                reveal_strlit("default");
                assert(text@ =~= "default"@);
            }
        }
        names.push(text);
        proof {
            let old_found = found;
            found = found.push(name@);
            assert(names_from(c, pos as int) == seq![name_at(c, pos as int)] + names_from(
                c,
                next_section(c, pos as int),
            ));
            assert(found + names_from(c, (end + 1) as int) =~= old_found + names_from(c, pos as int));
        }
        pos = end + 1;
    }
    proof {
        assert(names_from(c, pos as int) == Seq::<Seq<u8>>::empty());
        assert(found =~= section_names(c));
        if len > 13 {
            assert(pos > 0);
        }
    }
    proof {
        lemma_names_count(c, 0);
    }
    if names.len() as u32 != count {
        let detail = text4(
            "the header claims ",
            count as u64,
            " section(s) and the chunk holds ",
            names.len() as u64,
        );
        proof {
            assert(detail@ =~= "the header claims "@ + decimal(count as nat)
                + " section(s) and the chunk holds "@ + decimal(section_names(c).len()));
        }
        return Err(detail);
    }
    Ok(names)
}

/// Section 0 carries precomputed start information the firmware trusts rather
/// than derives; a wrong value plays from the wrong offset.
fn validate_default_section(bytes: &[u8], name: &Vec<u8>, sections_len: usize, display_frames: u32) -> (res:
    Result<(), String>)
    requires
        36 + sections_len <= bytes@.len(),
        sections_len > 13,
        name@ == name_at(sections_chunk(bytes@), 0),
        sections_len == header_sections_len(bytes@),
        display_frames > 0,
    ensures
        match default_failure(sections_chunk(bytes@), sections_len as int, display_frames as int) {
            Some(detail) => res matches Err(d) && d@ == detail,
            None => res is Ok,
        },
{
    let ghost c = sections_chunk(bytes@);
    let total = bytes.len();
    let is_default = name.len() == 7 && name[0] == 100u8 && name[1] == 101u8 && name[2] == 102u8
        && name[3] == 97u8 && name[4] == 117u8 && name[5] == 108u8 && name[6] == 116u8;
    proof {
        if is_default {
            assert(name@ =~= default_name());
        } else if name@.len() == 7 {
            assert(name@ != default_name()) by {
                if name@ == default_name() {
                    assert(name@[0] == default_name()[0]);
                    assert(name@[1] == default_name()[1]);
                    assert(name@[2] == default_name()[2]);
                    assert(name@[3] == default_name()[3]);
                    assert(name@[4] == default_name()[4]);
                    assert(name@[5] == default_name()[5]);
                    assert(name@[6] == default_name()[6]);
                }
            }
        }
    }
    if !is_default {
        let mut detail = String::from_str("the first section is `");
        let shown = lossy_string(name.as_slice());
        detail.append(shown.as_str());
        detail.append("` and must be `default`");
        return Err(detail);
    }
    let start = u32_at(bytes, 36);
    let end = u32_at(bytes, 40);
    let frame_offs = u32_at(bytes, 44);
    assert(le32(c, 0) == start);
    assert(le32(c, 4) == end);
    assert(le32(c, 8) == frame_offs);
    if start != 0 || end != display_frames - 1 {
        let mut detail = text4("`default` covers frames ", start as u64, "..", end as u64);
        let digits = decimal_string((display_frames - 1) as u64);
        detail.append(" and must cover 0..");
        detail.append(digits.as_str());
        proof {
            assert(detail@ =~= "`default` covers frames "@ + decimal(start as nat) + ".."@
                + decimal(end as nat) + " and must cover 0.."@ + decimal((display_frames - 1) as nat));
        }
        return Err(detail);
    }
    let expected = (36 + sections_len) as u32;
    if frame_offs != expected {
        let detail = text4(
            "`default` points at byte ",
            frame_offs as u64,
            " for its first frame; the frames chunk starts at ",
            expected as u64,
        );
        proof {
            assert(detail@ =~= "`default` points at byte "@ + decimal(frame_offs as nat)
                + " for its first frame; the frames chunk starts at "@ + decimal(expected as nat));
        }
        return Err(detail);
    }
    Ok(())
}

/// What every file `parse` accepts has: the signature, a header whose chunk
/// lengths account for every byte, a nonzero frame rate and frame count, and
/// exactly as many sections as the header claims, the first named `default`.
pub proof fn lemma_accepted_file(b: Seq<u8>)
    requires
        parse_failure(b) is None,
    ensures
        spec_is_anim(b),
        b.len() == 36 + header_sections_len(b) + header_frames_len(b),
        b[12] > 0,
        le32(b, 32) > 0,
        section_names(sections_chunk(b)).len() == header_section_count(b),
        section_names(sections_chunk(b))[0] == default_name(),
{
    let c = sections_chunk(b);
    lemma_names_count(c, 0);
    assert(header_section_count(b) < 4294967296);
    assert(section_names(c).len() < 4294967296);
    assert(section_names(c).len() > 0);
    assert(c.len() > 13);
}

} // verus!
