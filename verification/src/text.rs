//! Parse EMF font (EMR_EXTCREATEFONTINDIRECTW) and text (EMR_EXTTEXTOUTW /
//! EMR_EXTTEXTOUTA) records from their raw payloads.
//!
//! These records are kept as `EmfRecord::Unknown` by the reader (preserving
//! their exact bytes for the lossless mode); here we decode just the fields
//! needed to reproduce the glyphs as filled outlines.

use vstd::prelude::*;
use crate::text_util::{chars_of, push_char, push_chars};
use crate::wire::{i32_at, read_u16, read_u32, u16_at, u32_at};

verus! {

broadcast use vstd::string::group_string_axioms;

/// Record type numbers handled here.
pub const EMR_EXTTEXTOUTA: u32 = 83;

pub const EMR_EXTTEXTOUTW: u32 = 84;

pub const EMR_EXTCREATEFONTINDIRECTW: u32 = 82;

/// `char::from_u32`: the character with scalar value `v`, when `v` is one
/// (below 0xD800, or from 0xE000 to 0x10FFFF).
#[verifier::external_body]
fn char_from_u32(v: u32) -> (r: Option<char>)
    ensures
        r is Some <==> (v < 0xD800 || 0xE000 <= v <= 0x10FFFF),
        r matches Some(c) ==> c as u32 == v,
{
    char::from_u32(v)
}

/// A font selected into the device context.
#[derive(Debug, Clone, PartialEq, Eq)]
pub struct FontSpec {
    /// Em size in logical units (absolute value of LOGFONT height).
    pub size: u32,
    pub weight: u16,
    pub italic: bool,
    pub family: String,
}

impl FontSpec {
    /// 16 units, weight 400, upright, `sans-serif`.
    pub open spec fn is_default(self) -> bool {
        &&& self.size == 16
        &&& self.weight == 400
        &&& !self.italic
        &&& self.family@ == "sans-serif"@
    }
}

impl Default for FontSpec {
    fn default() -> (f: Self)
        ensures
            f.is_default(),
    {
        FontSpec { size: 16, weight: 400, italic: false, family: "sans-serif".to_owned() }
    }
}

/// The model of a font: its family as a character sequence.
pub struct FontModel {
    pub size: u32,
    pub weight: u16,
    pub italic: bool,
    pub family: Seq<char>,
}

impl View for FontSpec {
    type V = FontModel;

    open spec fn view(&self) -> FontModel {
        FontModel { size: self.size, weight: self.weight, italic: self.italic, family: self.family@ }
    }
}

impl FontSpec {
    /// A copy of this font.
    pub fn duplicate(&self) -> (f: FontSpec)
        ensures
            f@ == self@,
    {
        FontSpec {
            size: self.size,
            weight: self.weight,
            italic: self.italic,
            family: self.family.clone(),
        }
    }
}

/// Decoded text-out record: baseline reference point and the string.
#[derive(Debug, Clone, PartialEq, Eq)]
pub struct TextOut {
    pub x: i32,
    pub y: i32,
    pub text: String,
}

fn rd_i32(d: &[u8], o: usize) -> (r: Option<i32>)
    requires
        o + 4 <= usize::MAX,
    ensures
        r == (if o + 4 <= d@.len() {
            Some(i32_at(d@, o as int))
        } else {
            None
        }),
{
    if o + 4 > d.len() {
        return None;
    }
    Some(read_u32(d, o) as i32)
}

fn rd_u32(d: &[u8], o: usize) -> (r: Option<u32>)
    requires
        o + 4 <= usize::MAX,
    ensures
        r == (if o + 4 <= d@.len() {
            Some(u32_at(d@, o as int))
        } else {
            None
        }),
{
    if o + 4 > d.len() {
        return None;
    }
    Some(read_u32(d, o))
}

/// The character a UTF-16 code unit stands for on its own: itself, or `?`
/// for a surrogate.
pub open spec fn unit_char(cu: u16) -> char {
    if 0xD800 <= cu <= 0xDFFF {
        '?'
    } else {
        cu as char
    }
}

fn unit_to_char(cu: u16) -> (c: char)
    ensures
        c == unit_char(cu),
{
    match char_from_u32(cu as u32) {
        Some(c) => {
            proof {
                vstd::utf8::char_u32_cast(c, cu as u32);
            }
            c
        },
        None => '?',
    }
}

/// The face name of a LOGFONTW: its UTF-16 code units from unit `i` on (32
/// at most, from byte 28), up to the first zero or the end of the data.
pub open spec fn face_units(lf: Seq<u8>, i: nat) -> Seq<char>
    decreases 32 - i,
{
    if i >= 32 || 28 + 2 * i + 2 > lf.len() || u16_at(lf, 28 + 2 * i as int) == 0 {
        seq![]
    } else {
        seq![unit_char(u16_at(lf, 28 + 2 * i as int))] + face_units(lf, i + 1)
    }
}

/// The font an EXTCREATEFONTINDIRECTW payload selects, with its handle:
/// `ihFont`, then a LOGFONTW whose height, weight, italic flag and face name
/// are used. The size is the absolute height (16 for 0), the weight is
/// clamped to 1..=1000, and an empty face name becomes `sans-serif`.
pub open spec fn spec_font(p: Seq<u8>) -> Option<(u32, u32, u16, bool, Seq<char>)> {
    if p.len() < 4 + 21 {
        None
    } else {
        let lf = p.subrange(4, p.len() as int);
        let height = i32_at(lf, 0) as int;
        let weight = i32_at(lf, 16) as int;
        let size = if height < 0 {
            -height
        } else {
            height
        };
        let name = face_units(lf, 0);
        Some(
            (
                u32_at(p, 0),
                if size > 0 {
                    size as u32
                } else {
                    16
                },
                (if weight < 1 {
                    1
                } else if weight > 1000 {
                    1000
                } else {
                    weight
                }) as u16,
                lf[20] != 0,
                if name.len() == 0 {
                    "sans-serif"@
                } else {
                    name
                },
            ),
        )
    }
}

/// Parse an EMR_EXTCREATEFONTINDIRECTW payload (bytes after iType/nSize).
/// Layout: ihFont(u32) then a LOGFONTW (92 bytes).
pub fn parse_font(payload: &[u8]) -> (r: Option<(u32, FontSpec)>)
    ensures
        match spec_font(payload@) {
            None => r is None,
            Some((ih, size, weight, italic, family)) => r matches Some((h, f)) && h == ih && f.size
                == size && f.weight == weight && f.italic == italic && f.family@ == family,
        },
{
    let ih = rd_u32(payload, 0)?;
    let lf = vstd::slice::slice_subrange(payload, 4, payload.len());
    let height = rd_i32(lf, 0)?;
    let weight = rd_i32(lf, 16)?;
    if lf.len() < 21 {
        return None;
    }
    let italic = lf[20] != 0;
    // lfFaceName: 32 UTF-16LE code units at offset 28.
    let mut name = String::new();
    let mut i: usize = 0;
    while i < 32
        invariant
            i <= 32,
            name@ + face_units(lf@, i as nat) == face_units(lf@, 0),
        ensures
            name@ == face_units(lf@, 0),
        decreases 32 - i,
    {
        let o = 28 + i * 2;
        if o + 2 > lf.len() {
            assert(name@ =~= face_units(lf@, 0));
            break ;
        }
        let cu = read_u16(lf, o);
        if cu == 0 {
            assert(name@ =~= face_units(lf@, 0));
            break ;
        }
        push_char(&mut name, unit_to_char(cu));
        proof {
            assert(face_units(lf@, i as nat) =~= seq![unit_char(cu)] + face_units(lf@, (i + 1) as nat));
            assert(name@ + face_units(lf@, (i + 1) as nat) =~= face_units(lf@, 0));
        }
        i = i + 1;
        if i == 32 {
            assert(name@ =~= face_units(lf@, 0));
        }
    }
    let family = if name.as_str().is_empty() {
        "sans-serif".to_owned()
    } else {
        name
    };
    let size: u32 = if height == i32::MIN {
        0x8000_0000
    } else if height < 0 {
        (-height) as u32
    } else {
        height as u32
    };
    let size = if size > 0 {
        size
    } else {
        16
    };
    let weight = if weight < 1 {
        1
    } else if weight > 1000 {
        1000
    } else {
        weight
    } as u16;
    Some((ih, FontSpec { size, weight, italic, family }))
}

/// `n` UTF-16 code units from offset `off`, each as a character.
pub open spec fn units_text(p: Seq<u8>, off: int, n: nat) -> Seq<char> {
    Seq::new(n, |k: int| unit_char(u16_at(p, off + 2 * k)))
}

/// `n` bytes from offset `off`, each as the character with that code.
pub open spec fn latin1_text(p: Seq<u8>, off: int, n: nat) -> Seq<char> {
    Seq::new(n, |k: int| p[off + k] as char)
}

/// The reference point and text of an EXTTEXTOUT payload: the EMRTEXT at
/// offset 28 gives the point, the character count and the string offset
/// (from the record start, 8 bytes before the payload); the string is
/// UTF-16 when `wide`, one byte per character otherwise.
pub open spec fn spec_text_out(p: Seq<u8>, wide: bool) -> Option<(i32, i32, Seq<char>)> {
    if p.len() < 44 {
        None
    } else {
        let n = u32_at(p, 36) as int;
        let off_string = u32_at(p, 40) as int;
        if off_string < 8 {
            None
        } else {
            let off = off_string - 8;
            if wide {
                if n > 0 && off + 2 * n > p.len() {
                    None
                } else {
                    Some((i32_at(p, 28), i32_at(p, 32), units_text(p, off, n as nat)))
                }
            } else {
                if off + n > p.len() {
                    None
                } else {
                    Some((i32_at(p, 28), i32_at(p, 32), latin1_text(p, off, n as nat)))
                }
            }
        }
    }
}

/// Parse an EMR_EXTTEXTOUTW/A payload. `wide` selects UTF-16 vs ANSI string.
pub fn parse_text_out(payload: &[u8], wide: bool) -> (r: Option<TextOut>)
    ensures
        match spec_text_out(payload@, wide) {
            None => r is None,
            Some((x, y, text)) => r matches Some(t) && t.x == x && t.y == y && t.text@ == text,
        },
{
    // payload layout: rclBounds(16) iGraphicsMode(4) exScale(4) eyScale(4)
    // then EMRTEXT: Reference POINTL(8) nChars(4) offString(4) fOptions(4)
    // rcl(16) offDx(4). Offsets are from record start (8 bytes before payload).
    let emrtext_off: usize = 28;
    let ref_x = rd_i32(payload, emrtext_off)?;
    let ref_y = rd_i32(payload, emrtext_off + 4)?;
    let n_chars = rd_u32(payload, emrtext_off + 8)? as usize;
    let off_string = rd_u32(payload, emrtext_off + 12)? as usize;
    // Convert record-relative offset to payload-relative (record starts 8
    // bytes earlier than the payload).
    let str_off = off_string.checked_sub(8)?;
    let len = payload.len();
    let mut s = String::new();
    if wide {
        let mut i: usize = 0;
        while i < n_chars
            invariant
                len == payload@.len(),
                i <= n_chars,
                wide,
                len >= 44,
                n_chars == u32_at(payload@, 36),
                str_off + 8 == u32_at(payload@, 40),
                i > 0 ==> str_off + 2 * i <= len,
                s@ == units_text(payload@, str_off as int, i as nat),
            decreases n_chars - i,
        {
            if str_off > len || len - str_off - 2 * i < 2 {
                return None;
            }
            let o = str_off + 2 * i;
            let cu = read_u16(payload, o);
            push_char(&mut s, unit_to_char(cu));
            i = i + 1;
            assert(s@ =~= units_text(payload@, str_off as int, i as nat));
        }
    } else {
        if str_off > len || n_chars > len - str_off {
            return None;
        }
        let mut i: usize = 0;
        while i < n_chars
            invariant
                len == payload@.len(),
                i <= n_chars,
                str_off + n_chars <= len,
                s@ == latin1_text(payload@, str_off as int, i as nat),
            decreases n_chars - i,
        {
            push_char(&mut s, payload[str_off + i] as char);
            i = i + 1;
            assert(s@ =~= latin1_text(payload@, str_off as int, i as nat));
        }
    }
    Some(TextOut { x: ref_x, y: ref_y, text: s })
}

} // verus!
