//! Tray icons: decoding the bundled PNG battery pictures into ARGB pixmaps, the
//! complete set of 101 levels, and the choice of picture or theme icon name.

use vstd::prelude::*;
use crate::text::{decimal, push_decimal};

verus! {

#[verifier::external_type_specification]
#[verifier::external_body]
pub struct ExPngDecodingError(png::DecodingError);

/// The first frame of a PNG image as the `png` crate decodes it with its default
/// settings: width, height, PNG colour type code, bit depth, and the output
/// buffer's bytes.
pub uninterp spec fn png_first_frame(png_bytes: Seq<u8>) -> Option<(u32, u32, u8, u8, Seq<u8>)>;

/// PNG colour type code of 8-bit-per-sample red, green, blue and alpha.
pub const PNG_COLOR_TYPE_RGBA: u8 = 6;

/// The only PNG bit depth the icons may use.
pub const PNG_BIT_DEPTH_EIGHT: u8 = 8;

/// One decoded PNG frame.
pub struct DecodedFrame {
    pub width: u32,
    pub height: u32,
    /// The PNG colour type code (`png::ColorType` as `u8`).
    pub color_type: u8,
    /// The bit depth per sample (`png::BitDepth` as `u8`).
    pub bit_depth: u8,
    /// The bytes of the output buffer, row by row.
    pub pixels: Vec<u8>,
}

/// Decodes the first frame of a PNG image with the `png` crate
/// (`Decoder::new`, `Decoder::read_info`, `Reader::output_buffer_size`,
/// `Reader::next_frame`). The contract says only that the outcome is a function of
/// the bytes: success exactly when `png_first_frame` gives a frame, and then that
/// frame. The buffer it allocates has the size the image header asks for.
#[verifier::external_body]
fn decode_png_frame(png_bytes: &[u8]) -> (r: Result<DecodedFrame, png::DecodingError>)
    ensures
        r is Ok <==> png_first_frame(png_bytes@) is Some,
        r matches Ok(f) ==> png_first_frame(png_bytes@) == Some(
            (f.width, f.height, f.color_type, f.bit_depth, f.pixels@),
        ),
{
    let mut reader = png::Decoder::new(png_bytes).read_info()?;
    let mut pixels = vec![0u8; reader.output_buffer_size()];
    let info = reader.next_frame(&mut pixels)?;
    Ok(DecodedFrame {
        width: info.width,
        height: info.height,
        color_type: info.color_type as u8,
        bit_depth: info.bit_depth as u8,
        pixels,
    })
}

/// An ARGB32 pixmap as the StatusNotifierItem protocol carries it.
pub struct Icon {
    pub width: i32,
    pub height: i32,
    pub data: Vec<u8>,
}

/// A frame that is not 8-bit RGBA.
pub struct UnsupportedFormat {
    pub color_type: u8,
    pub bit_depth: u8,
}

/// Why an icon file could not be used.
pub enum IconError {
    /// The `png` crate refused the bytes.
    Decode(png::DecodingError),
    /// The image is not 8-bit RGBA.
    Unsupported(UnsupportedFormat),
}

/// RGBA bytes reordered to ARGB, four bytes per pixel; bytes after the last whole
/// pixel are dropped.
pub open spec fn argb_from_rgba(rgba: Seq<u8>) -> Seq<u8>
    decreases rgba.len(),
{
    if rgba.len() < 4 {
        Seq::empty()
    } else {
        seq![rgba[3], rgba[0], rgba[1], rgba[2]] + argb_from_rgba(rgba.skip(4))
    }
}

/// Each whole RGBA pixel becomes one ARGB pixel in the same place: alpha first,
/// then red, green and blue; the output holds the whole pixels only.
pub proof fn lemma_argb_pixels(rgba: Seq<u8>)
    ensures
        argb_from_rgba(rgba).len() == 4 * (rgba.len() / 4),
        forall|p: int|
            0 <= p < rgba.len() / 4 ==> {
                &&& #[trigger] argb_from_rgba(rgba)[4 * p] == rgba[4 * p + 3]
                &&& argb_from_rgba(rgba)[4 * p + 1] == rgba[4 * p]
                &&& argb_from_rgba(rgba)[4 * p + 2] == rgba[4 * p + 1]
                &&& argb_from_rgba(rgba)[4 * p + 3] == rgba[4 * p + 2]
            },
    decreases rgba.len(),
{
    if rgba.len() >= 4 {
        let rest = rgba.skip(4);
        lemma_argb_pixels(rest);
        let out = argb_from_rgba(rgba);
        let tail = argb_from_rgba(rest);
        assert(out == seq![rgba[3], rgba[0], rgba[1], rgba[2]] + tail);
        assert(rest.len() / 4 == rgba.len() / 4 - 1);
        assert forall|p: int| 0 <= p < rgba.len() / 4 implies {
            &&& #[trigger] out[4 * p] == rgba[4 * p + 3]
            &&& out[4 * p + 1] == rgba[4 * p]
            &&& out[4 * p + 2] == rgba[4 * p + 1]
            &&& out[4 * p + 3] == rgba[4 * p + 2]
        } by {
            if p > 0 {
                let q = p - 1;
                assert(tail[4 * q] == rest[4 * q + 3]);
                assert(out[4 * p] == tail[4 * q]);
                assert(out[4 * p + 1] == tail[4 * q + 1]);
                assert(out[4 * p + 2] == tail[4 * q + 2]);
                assert(out[4 * p + 3] == tail[4 * q + 3]);
            }
        }
    }
}

/// Reorders RGBA pixels to ARGB.
pub fn rgba_to_argb(rgba: &Vec<u8>) -> (r: Vec<u8>)
    ensures
        r@ == argb_from_rgba(rgba@),
{
    let n = rgba.len();
    let mut out: Vec<u8> = Vec::new();
    let mut p: usize = 0;
    assert(rgba@.skip(0) =~= rgba@);
    while 4 <= n - p
        invariant
            p <= n == rgba.len(),
            out@ + argb_from_rgba(rgba@.skip(p as int)) == argb_from_rgba(rgba@),
        decreases n - p,
    {
        let ghost before = out@;
        out.push(rgba[p + 3]);
        out.push(rgba[p]);
        out.push(rgba[p + 1]);
        out.push(rgba[p + 2]);
        assert(rgba@.skip(p as int).skip(4) =~= rgba@.skip(p + 4));
        assert(out@ =~= before + seq![rgba@[p + 3], rgba@[p as int], rgba@[p + 1], rgba@[p + 2]]);
        assert(out@ + argb_from_rgba(rgba@.skip(p + 4)) =~= before + argb_from_rgba(
            rgba@.skip(p as int),
        ));
        p += 4;
    }
    assert(argb_from_rgba(rgba@.skip(p as int)) =~= Seq::<u8>::empty());
    assert(out@ + Seq::<u8>::empty() =~= out@);
    out
}

/// The pixmap for a decoded frame, which must be 8-bit RGBA.
pub fn icon_from_frame(frame: DecodedFrame) -> (r: Result<Icon, UnsupportedFormat>)
    ensures
        r is Ok <==> (frame.color_type == PNG_COLOR_TYPE_RGBA && frame.bit_depth
            == PNG_BIT_DEPTH_EIGHT),
        r matches Ok(icon) ==> {
            &&& icon.width == frame.width as i32
            &&& icon.height == frame.height as i32
            &&& icon.data@ == argb_from_rgba(frame.pixels@)
        },
        r matches Err(e) ==> e.color_type == frame.color_type && e.bit_depth == frame.bit_depth,
{
    if frame.color_type != PNG_COLOR_TYPE_RGBA || frame.bit_depth != PNG_BIT_DEPTH_EIGHT {
        return Err(UnsupportedFormat { color_type: frame.color_type, bit_depth: frame.bit_depth });
    }
    let data = rgba_to_argb(&frame.pixels);
    Ok(Icon { width: frame.width as i32, height: frame.height as i32, data })
}

/// The pixmap in the bytes of a PNG file.
pub fn decode_icon(png_bytes: &[u8]) -> (r: Result<Icon, IconError>)
    ensures
        r matches Err(IconError::Decode(_)) <==> png_first_frame(png_bytes@) is None,
        r matches Ok(icon) ==> {
            let f = png_first_frame(png_bytes@)->0;
            &&& f.2 == PNG_COLOR_TYPE_RGBA && f.3 == PNG_BIT_DEPTH_EIGHT
            &&& icon.width == f.0 as i32
            &&& icon.height == f.1 as i32
            &&& icon.data@ == argb_from_rgba(f.4)
        },
        r matches Err(IconError::Unsupported(e)) ==> {
            let f = png_first_frame(png_bytes@)->0;
            &&& png_first_frame(png_bytes@) is Some
            &&& !(f.2 == PNG_COLOR_TYPE_RGBA && f.3 == PNG_BIT_DEPTH_EIGHT)
            &&& e.color_type == f.2 && e.bit_depth == f.3
        },
{
    match decode_png_frame(png_bytes) {
        Err(e) => Err(IconError::Decode(e)),
        Ok(frame) => match icon_from_frame(frame) {
            Ok(icon) => Ok(icon),
            Err(u) => Err(IconError::Unsupported(u)),
        },
    }
}

/// Highest battery level that has a picture of its own.
pub const MAX_ICON_LEVEL: u8 = 100;

/// File name of the picture shown when no level is known.
pub const MISSING_ICON_FILE: &'static str = "bat_missing.png";

/// `bat_<level>.png`, or `bat_<level>_c.png` while charging.
pub open spec fn icon_file_name_spec(level: u8, charging: bool) -> Seq<char> {
    "bat_"@ + decimal(level as nat) + if charging {
        "_c.png"@
    } else {
        ".png"@
    }
}

/// The file name of the picture for `level` (0 to 100).
pub fn icon_file_name(level: u8, charging: bool) -> (r: String)
    ensures
        r@ == icon_file_name_spec(level, charging),
{
    let mut r = String::from_str("bat_");
    push_decimal(&mut r, level);
    if charging {
        r.append("_c.png");
    } else {
        r.append(".png");
    }
    r
}

/// The pictures for every level from 0 to 100, discharging and charging, and
/// optionally one for an unknown level.
pub struct IconSet {
    discharging: Vec<Icon>,
    charging: Vec<Icon>,
    missing: Option<Icon>,
}

/// The picture index for a level: levels above 100 use the picture for 100.
pub open spec fn icon_index(level: u8) -> int {
    if level > MAX_ICON_LEVEL {
        MAX_ICON_LEVEL as int
    } else {
        level as int
    }
}

/// Levels up to 100 have their own picture; higher levels use the one for 100.
pub proof fn lemma_icon_index(level: u8)
    ensures
        level <= 100 ==> icon_index(level) == level as int,
        level > 100 ==> icon_index(level) == 100,
{
}

impl IconSet {
    #[verifier::type_invariant]
    spec fn complete(self) -> bool {
        &&& self.discharging@.len() == MAX_ICON_LEVEL + 1
        &&& self.charging@.len() == MAX_ICON_LEVEL + 1
    }

    /// The discharging pictures, by level.
    pub closed spec fn discharging_icons(self) -> Seq<Icon> {
        self.discharging@
    }

    /// The charging pictures, by level.
    pub closed spec fn charging_icons(self) -> Seq<Icon> {
        self.charging@
    }

    /// The picture for an unknown level.
    pub closed spec fn missing_icon(self) -> Option<Icon> {
        self.missing
    }

    /// A set from the pictures of levels 0 to 100, when both lists are complete.
    pub fn new(discharging: Vec<Icon>, charging: Vec<Icon>, missing: Option<Icon>) -> (r: Option<
        IconSet,
    >)
        ensures
            r is Some <==> (discharging@.len() == MAX_ICON_LEVEL + 1 && charging@.len()
                == MAX_ICON_LEVEL + 1),
            r matches Some(set) ==> {
                &&& set.discharging_icons() == discharging@
                &&& set.charging_icons() == charging@
                &&& set.missing_icon() == missing
            },
    {
        if discharging.len() == 101 && charging.len() == 101 {
            Some(IconSet { discharging, charging, missing })
        } else {
            None
        }
    }

    /// Whether there is a picture for an unknown level.
    pub fn has_missing(&self) -> (r: bool)
        ensures
            r == (self.missing_icon() is Some),
    {
        self.missing.is_some()
    }

    /// The picture for a level (the missing-level picture when the level is unknown).
    pub fn pixmap(&self, level: Option<u8>, charging: bool) -> (r: Option<&Icon>)
        ensures
            match level {
                Some(l) => r is Some && *r->0 == (if charging {
                    self.charging_icons()
                } else {
                    self.discharging_icons()
                })[icon_index(l)],
                None => match self.missing_icon() {
                    Some(m) => r is Some && *r->0 == m,
                    None => r is None,
                },
            },
    {
        proof {
            use_type_invariant(self);
        }
        match level {
            Some(l) => {
                let idx: usize = if l > MAX_ICON_LEVEL {
                    MAX_ICON_LEVEL as usize
                } else {
                    l as usize
                };
                if charging {
                    Some(&self.charging[idx])
                } else {
                    Some(&self.discharging[idx])
                }
            },
            None => self.missing.as_ref(),
        }
    }
}

/// The freedesktop theme icon for a battery state.
pub open spec fn theme_icon_name(level: Option<u8>, charging: bool) -> Seq<char> {
    match level {
        None => "battery-missing"@,
        Some(l) => if charging {
            "battery-full-charging"@
        } else if l > 80 {
            "battery-full"@
        } else if l > 60 {
            "battery-good"@
        } else if l > 40 {
            "battery-medium"@
        } else if l > 20 {
            "battery-low"@
        } else {
            "battery-caution"@
        },
    }
}

/// The tray's icon name: empty when a bundled picture will be shown (the level is
/// known, or a missing-level picture exists), else the theme icon.
pub open spec fn tray_icon_name_spec(level: Option<u8>, charging: bool, pictures: bool, missing_picture: bool) -> Seq<char> {
    if pictures && (level is Some || missing_picture) {
        Seq::empty()
    } else {
        theme_icon_name(level, charging)
    }
}

/// The icon name follows the battery state: empty while a bundled picture is
/// shown; otherwise `battery-missing` without a level, `battery-full-charging`
/// for any level while charging, and by level band while discharging.
pub proof fn lemma_tray_icon_names(level: Option<u8>, charging: bool, pictures: bool, missing_picture: bool)
    ensures
        ({
            let name = tray_icon_name_spec(level, charging, pictures, missing_picture);
            if pictures && (level is Some || missing_picture) {
                name == Seq::<char>::empty()
            } else {
                match level {
                    None => name == "battery-missing"@,
                    Some(l) => {
                        &&& charging ==> name == "battery-full-charging"@
                        &&& !charging && l > 80 ==> name == "battery-full"@
                        &&& !charging && 60 < l <= 80 ==> name == "battery-good"@
                        &&& !charging && 40 < l <= 60 ==> name == "battery-medium"@
                        &&& !charging && 20 < l <= 40 ==> name == "battery-low"@
                        &&& !charging && l <= 20 ==> name == "battery-caution"@
                    },
                }
            }
        }),
{
}

/// The tray's icon name for the selected device's level and charging state.
pub fn tray_icon_name(level: Option<u8>, charging: bool, icons: Option<&IconSet>) -> (r: String)
    ensures
        r@ == tray_icon_name_spec(
            level,
            charging,
            icons is Some,
            icons is Some && icons->0.missing_icon() is Some,
        ),
{
    if let Some(set) = icons {
        if level.is_some() || set.has_missing() {
            return String::new();
        }
    }
    match level {
        None => String::from_str("battery-missing"),
        Some(l) => {
            if charging {
                String::from_str("battery-full-charging")
            } else if l > 80 {
                String::from_str("battery-full")
            } else if l > 60 {
                String::from_str("battery-good")
            } else if l > 40 {
                String::from_str("battery-medium")
            } else if l > 20 {
                String::from_str("battery-low")
            } else {
                String::from_str("battery-caution")
            }
        },
    }
}

} // verus!
