//! The decisions behind decoding a video file into RGB24 frames with
//! ffmpeg: which decode path to use, the ffmpeg command line, which DRM
//! render node is the Intel one, and how a probe's output size gives the
//! scaled frame dimensions. Spawning ffmpeg and reading its output is left
//! to the caller.

use vstd::prelude::*;

use crate::text::{
    decimal, eq_ignore_ascii_case, has_prefix, push_decimal, str_eq_ignore_ascii_case, str_equals,
    parse_unsigned, str_less, str_starts_with, str_trim, text_less, trim, lemma_text_less_asymmetric,
    lemma_text_less_irreflexive, lemma_text_less_total, lemma_text_less_transitive,
};

verus! {

/// Default downsample width for lab video → GIF.
pub const DEFAULT_SCALE_WIDTH: u32 = 480;

/// Default frames per second sampled from the video: ten, to match a
/// graphic-control delay of 10 cs (100 ms) per frame.
pub const DEFAULT_FPS: u32 = 10;

/// Render node used for VAAPI when none is configured or found.
pub const DEFAULT_RENDER_NODE: &'static str = "/dev/dri/renderD128";

/// PCI vendor id of Intel, as sysfs writes it.
pub const INTEL_PCI_VENDOR: &'static str = "0x8086";

/// How ffmpeg should decode and scale frames.
pub enum DecodePath {
    Software,
    Vaapi { device: String },
}

/// The decode path, as the contracts describe it.
pub ghost enum DecodeChoice {
    Software,
    Vaapi(Seq<char>),
}

impl DecodePath {
    /// The decode path with the device as a character sequence.
    pub open spec fn choice(&self) -> DecodeChoice {
        match self {
            DecodePath::Software => DecodeChoice::Software,
            DecodePath::Vaapi { device } => DecodeChoice::Vaapi(device@),
        }
    }
}

/// The ffmpeg video filter: sample `fps` frames per second and scale to
/// `scale_width` (even height, aspect kept); with VAAPI, scale on the GPU
/// and download as RGB24.
pub open spec fn vf_filter_text(choice: DecodeChoice, fps: u32, scale_width: u32) -> Seq<char> {
    match choice {
        DecodeChoice::Software => "fps="@ + decimal(fps as nat) + ",scale="@ + decimal(
            scale_width as nat,
        ) + ":-2"@,
        DecodeChoice::Vaapi(_) => "fps="@ + decimal(fps as nat) + ",scale_vaapi=w="@ + decimal(
            scale_width as nat,
        ) + ":h=-2,hwdownload,format=nv12,format=rgb24"@,
    }
}

/// The video filter for a decode path.
pub fn vf_filter(decode: &DecodePath, fps: u32, scale_width: u32) -> (r: String)
    ensures
        r@ == vf_filter_text(decode.choice(), fps, scale_width),
{
    let mut text = String::from_str("fps=");
    push_decimal(&mut text, fps as u64);
    match decode {
        DecodePath::Software => {
            text.append(",scale=");
            push_decimal(&mut text, scale_width as u64);
            text.append(":-2");
        },
        DecodePath::Vaapi { .. } => {
            text.append(",scale_vaapi=w=");
            push_decimal(&mut text, scale_width as u64);
            text.append(":h=-2,hwdownload,format=nv12,format=rgb24");
        },
    }
    text
}

/// How a decode path is reported: `software`, or `vaapi device=` and the
/// device.
pub open spec fn decode_path_text(choice: DecodeChoice) -> Seq<char> {
    match choice {
        DecodeChoice::Software => "software"@,
        DecodeChoice::Vaapi(device) => "vaapi device="@ + device,
    }
}

/// The report of a decode path.
pub fn format_decode_path(decode: &DecodePath) -> (r: String)
    ensures
        r@ == decode_path_text(decode.choice()),
{
    match decode {
        DecodePath::Software => String::from_str("software"),
        DecodePath::Vaapi { device } => {
            let mut text = String::from_str("vaapi device=");
            text.append(device.as_str());
            text
        },
    }
}

/// The arguments of the ffmpeg command that decodes `path` with the given
/// filter settings into raw RGB24 on standard output, with
/// `extra_output_args` before the output options.
pub open spec fn ffmpeg_args_text(
    choice: DecodeChoice,
    path: Seq<char>,
    fps: u32,
    scale_width: u32,
    extra_output_args: Seq<Seq<char>>,
) -> Seq<Seq<char>> {
    let hwaccel = match choice {
        DecodeChoice::Software => Seq::empty(),
        DecodeChoice::Vaapi(device) => seq![
            "-hwaccel"@,
            "vaapi"@,
            "-hwaccel_device"@,
            device,
            "-hwaccel_output_format"@,
            "vaapi"@,
        ],
    };
    seq!["-hide_banner"@, "-loglevel"@, "error"@] + hwaccel + seq![
        "-an"@,
        "-i"@,
        path,
        "-vf"@,
        vf_filter_text(choice, fps, scale_width),
    ] + extra_output_args + seq!["-f"@, "rawvideo"@, "-pix_fmt"@, "rgb24"@, "pipe:1"@]
}

/// The characters of each string of a list.
pub open spec fn strings_view(strings: Seq<String>) -> Seq<Seq<char>> {
    strings.map_values(|s: String| s@)
}

fn push_arg(args: &mut Vec<String>, arg: &str)
    ensures
        strings_view(final(args)@) == strings_view(old(args)@).push(arg@),
{
    args.push(String::from_str(arg));
    assert(strings_view(args@) =~= strings_view(old(args)@).push(arg@));
}

/// The ffmpeg arguments for decoding `path` (see `ffmpeg_args_text`).
pub fn ffmpeg_args(
    decode: &DecodePath,
    path: &str,
    fps: u32,
    scale_width: u32,
    extra_output_args: &Vec<String>,
) -> (r: Vec<String>)
    ensures
        strings_view(r@) == ffmpeg_args_text(
            decode.choice(),
            path@,
            fps,
            scale_width,
            strings_view(extra_output_args@),
        ),
{
    let mut args: Vec<String> = Vec::new();
    push_arg(&mut args, "-hide_banner");
    push_arg(&mut args, "-loglevel");
    push_arg(&mut args, "error");
    if let DecodePath::Vaapi { device } = decode {
        push_arg(&mut args, "-hwaccel");
        push_arg(&mut args, "vaapi");
        push_arg(&mut args, "-hwaccel_device");
        push_arg(&mut args, device.as_str());
        push_arg(&mut args, "-hwaccel_output_format");
        push_arg(&mut args, "vaapi");
    }
    push_arg(&mut args, "-an");
    push_arg(&mut args, "-i");
    push_arg(&mut args, path);
    push_arg(&mut args, "-vf");
    let filter = vf_filter(decode, fps, scale_width);
    push_arg(&mut args, filter.as_str());
    let ghost before_extra = strings_view(args@);
    let mut i: usize = 0;
    while i < extra_output_args.len()
        invariant
            i <= extra_output_args@.len(),
            strings_view(args@) == before_extra + strings_view(extra_output_args@).take(i as int),
        decreases extra_output_args@.len() - i,
    {
        push_arg(&mut args, extra_output_args[i].as_str());
        assert(strings_view(extra_output_args@).take(i + 1) =~= strings_view(
            extra_output_args@,
        ).take(i as int).push(extra_output_args@[i as int]@));
        i = i + 1;
    }
    assert(strings_view(extra_output_args@).take(i as int) =~= strings_view(extra_output_args@));
    push_arg(&mut args, "-f");
    push_arg(&mut args, "rawvideo");
    push_arg(&mut args, "-pix_fmt");
    push_arg(&mut args, "rgb24");
    push_arg(&mut args, "pipe:1");
    assert(strings_view(args@) =~= ffmpeg_args_text(
        decode.choice(),
        path@,
        fps,
        scale_width,
        strings_view(extra_output_args@),
    ));
    args
}

/// The device a VAAPI setting names, if it names one (an empty setting
/// names none).
pub open spec fn configured_device(setting: Option<Seq<char>>) -> Option<Seq<char>> {
    match setting {
        Some(device) => if device.len() > 0 {
            Some(device)
        } else {
            None
        },
        None => None,
    }
}

/// The decode path that the settings select. `hwaccel` is the requested
/// acceleration (`off` / `none` / `vaapi`, in any ASCII case), `device` the
/// configured VAAPI device and `intel_node` the Intel render node found on
/// the machine. `off` or `none` decode in software; `vaapi` uses the
/// configured device, else the Intel node, else the default node; anything
/// else (or no request) uses VAAPI when a device is configured or an Intel
/// node exists, and software otherwise.
pub open spec fn decode_choice(
    hwaccel: Option<Seq<char>>,
    device: Option<Seq<char>>,
    intel_node: Option<Seq<char>>,
) -> DecodeChoice {
    let configured = configured_device(device);
    let auto = match configured {
        Some(d) => DecodeChoice::Vaapi(d),
        None => match intel_node {
            Some(node) => DecodeChoice::Vaapi(node),
            None => DecodeChoice::Software,
        },
    };
    match hwaccel {
        Some(value) => if eq_ignore_ascii_case(value, "off"@) || eq_ignore_ascii_case(
            value,
            "none"@,
        ) {
            DecodeChoice::Software
        } else if eq_ignore_ascii_case(value, "vaapi"@) {
            DecodeChoice::Vaapi(
                match configured {
                    Some(d) => d,
                    None => match intel_node {
                        Some(node) => node,
                        None => DEFAULT_RENDER_NODE@,
                    },
                },
            )
        } else {
            auto
        },
        None => auto,
    }
}

/// The characters of an optional string.
pub open spec fn opt_view(s: Option<&str>) -> Option<Seq<char>> {
    match s {
        Some(s) => Some(s@),
        None => None,
    }
}

/// The decode path that the settings select (see `decode_choice`).
pub fn decode_path_from_settings(
    hwaccel: Option<&str>,
    device: Option<&str>,
    intel_node: Option<&str>,
) -> (r: DecodePath)
    ensures
        r.choice() == decode_choice(opt_view(hwaccel), opt_view(device), opt_view(intel_node)),
{
    let configured: Option<&str> = match device {
        Some(d) => if d.unicode_len() > 0 {
            Some(d)
        } else {
            None
        },
        None => None,
    };
    let mut force_vaapi = false;
    if let Some(value) = hwaccel {
        if str_eq_ignore_ascii_case(value, "off") || str_eq_ignore_ascii_case(value, "none") {
            return DecodePath::Software;
        }
        force_vaapi = str_eq_ignore_ascii_case(value, "vaapi");
    }
    match configured {
        Some(d) => DecodePath::Vaapi { device: String::from_str(d) },
        None => match intel_node {
            Some(node) => DecodePath::Vaapi { device: String::from_str(node) },
            None => if force_vaapi {
                DecodePath::Vaapi { device: String::from_str(DEFAULT_RENDER_NODE) }
            } else {
                DecodePath::Software
            },
        },
    }
}

/// Whether a failed open with VAAPI is retried in software: only when VAAPI
/// was requested and the failure is not a missing file.
pub fn fall_back_to_software(requested: &DecodePath, not_found: bool) -> (r: bool)
    ensures
        r == (requested.choice() is Vaapi && !not_found),
{
    match requested {
        DecodePath::Vaapi { .. } => !not_found,
        DecodePath::Software => false,
    }
}

/// One entry of the DRM device directory: its path, its file name when
/// that is valid Unicode, and the contents of its sysfs `device/vendor`
/// file when that could be read.
pub struct RenderNodeEntry {
    pub path: String,
    pub file_name: Option<String>,
    pub vendor: Option<String>,
}

/// The file name of an entry, or the empty name.
pub open spec fn entry_name(entry: RenderNodeEntry) -> Seq<char> {
    match entry.file_name {
        Some(name) => name@,
        None => Seq::empty(),
    }
}

/// Whether an entry is a render node (`renderD*`) whose PCI vendor,
/// without surrounding whitespace, is Intel's.
pub open spec fn is_intel_render_node(entry: RenderNodeEntry) -> bool {
    &&& entry.file_name is Some
    &&& has_prefix(entry_name(entry), "renderD"@)
    &&& entry.vendor matches Some(vendor) && trim(vendor@) == INTEL_PCI_VENDOR@
}

/// The index of the Intel render node that comes first in name order
/// (the first listed among equal names), if there is one.
pub fn select_intel_render_node(entries: &Vec<RenderNodeEntry>) -> (r: Option<usize>)
    ensures
        r is None <==> forall|j: int| 0 <= j < entries@.len() ==> !is_intel_render_node(
            #[trigger] entries@[j],
        ),
        r matches Some(i) ==> {
            &&& i < entries@.len()
            &&& is_intel_render_node(entries@[i as int])
            &&& forall|j: int|
                0 <= j < entries@.len() && is_intel_render_node(#[trigger] entries@[j]) ==> !text_less(
                    entry_name(entries@[j]),
                    entry_name(entries@[i as int]),
                ) && (j < i ==> text_less(entry_name(entries@[i as int]), entry_name(entries@[j])))
        },
{
    let mut best: Option<usize> = None;
    let mut k: usize = 0;
    while k < entries.len()
        invariant
            k <= entries@.len(),
            best is None <==> forall|j: int| 0 <= j < k ==> !is_intel_render_node(
                #[trigger] entries@[j],
            ),
            best matches Some(i) ==> {
                &&& i < k
                &&& is_intel_render_node(entries@[i as int])
                &&& forall|j: int|
                    0 <= j < k && is_intel_render_node(#[trigger] entries@[j]) ==> !text_less(
                        entry_name(entries@[j]),
                        entry_name(entries@[i as int]),
                    ) && (j < i ==> text_less(
                        entry_name(entries@[i as int]),
                        entry_name(entries@[j]),
                    ))
            },
        decreases entries@.len() - k,
    {
        let entry = &entries[k];
        let qualifies: bool = match (&entry.file_name, &entry.vendor) {
            (Some(name), Some(vendor)) => str_starts_with(name.as_str(), "renderD") && str_equals(
                str_trim(vendor.as_str()),
                INTEL_PCI_VENDOR,
            ),
            _ => false,
        };
        assert(qualifies == is_intel_render_node(entries@[k as int]));
        if qualifies {
            match best {
                None => {
                    proof {
                        lemma_text_less_irreflexive(entry_name(entries@[k as int]));
                    }
                    best = Some(k);
                },
                Some(i) => {
                    let name_k = match &entry.file_name {
                        Some(name) => name.as_str(),
                        None => "",
                    };
                    let name_i = match &entries[i].file_name {
                        Some(name) => name.as_str(),
                        None => "",
                    };
                    let ghost nk = entry_name(entries@[k as int]);
                    let ghost ni = entry_name(entries@[i as int]);
                    if str_less(name_k, name_i) {
                        proof {
                            assert forall|j: int|
                                0 <= j < k && is_intel_render_node(#[trigger] entries@[j]) implies !text_less(
                                entry_name(entries@[j]),
                                nk,
                            ) && text_less(nk, entry_name(entries@[j])) by {
                                let nj = entry_name(entries@[j]);
                                lemma_text_less_total(ni, nj);
                                if ni != nj {
                                    lemma_text_less_transitive(nk, ni, nj);
                                }
                                lemma_text_less_asymmetric(nk, nj);
                            }
                            lemma_text_less_irreflexive(nk);
                        }
                        best = Some(k);
                    }
                },
            }
        }
        k = k + 1;
    }
    best
}

/// Why a probe's output does not give frame dimensions.
pub enum ProbeError {
    /// The probe wrote no bytes, or a number that is not a whole number of
    /// RGB24 pixels.
    UnexpectedByteCount(usize),
    /// The pixels do not fill whole rows of the scaled width.
    NotDivisible { bytes: usize, width: usize },
    /// The scaled width does not fit a `u16`.
    WidthTooLarge(usize),
    /// The scaled height does not fit a `u16`.
    HeightTooLarge(usize),
}

/// The dimensions that a probe's output gives, or why it gives none: the
/// probe decodes one frame scaled to `scale_width` as RGB24, so the height
/// is the number of pixels divided by the width.
pub open spec fn probe_dimensions(byte_count: nat, scale_width: nat) -> Result<(u16, u16), ProbeError> {
    if byte_count == 0 || byte_count % 3 != 0 {
        Err(ProbeError::UnexpectedByteCount(byte_count as usize))
    } else if (byte_count / 3) % scale_width != 0 {
        Err(ProbeError::NotDivisible { bytes: byte_count as usize, width: scale_width as usize })
    } else if scale_width > u16::MAX {
        Err(ProbeError::WidthTooLarge(scale_width as usize))
    } else if (byte_count / 3) / scale_width > u16::MAX {
        Err(ProbeError::HeightTooLarge(((byte_count / 3) / scale_width) as usize))
    } else {
        Ok((scale_width as u16, ((byte_count / 3) / scale_width) as u16))
    }
}

/// The scaled frame dimensions from the size of a one-frame probe.
pub fn scaled_dimensions(byte_count: usize, scale_width: u32) -> (r: Result<(u16, u16), ProbeError>)
    requires
        byte_count == 0 || byte_count % 3 != 0 || scale_width != 0,
    ensures
        r == probe_dimensions(byte_count as nat, scale_width as nat),
{
    if byte_count == 0 || byte_count % 3 != 0 {
        return Err(ProbeError::UnexpectedByteCount(byte_count));
    }
    let pixels: usize = byte_count / 3;
    let width: usize = scale_width as usize;
    if pixels % width != 0 {
        return Err(ProbeError::NotDivisible { bytes: byte_count, width });
    }
    let height: usize = pixels / width;
    if width > 0xFFFF {
        return Err(ProbeError::WidthTooLarge(width));
    }
    if height > 0xFFFF {
        return Err(ProbeError::HeightTooLarge(height));
    }
    Ok((width as u16, height as u16))
}

/// Bytes in one RGB24 frame of the given dimensions.
pub fn frame_len(width: u16, height: u16) -> (r: usize)
    requires
        width * height * 3 <= usize::MAX,
    ensures
        r == width * height * 3,
{
    (width as usize) * (height as usize) * 3
}

/// The message that reports a probe error.
pub open spec fn probe_error_text(err: ProbeError) -> Seq<char> {
    match err {
        ProbeError::UnexpectedByteCount(bytes) => "ffmpeg probe produced unexpected byte count "@
            + decimal(bytes as nat),
        ProbeError::NotDivisible { bytes, width } => "ffmpeg probe size "@ + decimal(bytes as nat)
            + " is not divisible by width "@ + decimal(width as nat) + " * 3"@,
        ProbeError::WidthTooLarge(width) => "scaled width "@ + decimal(width as nat)
            + " exceeds u16"@,
        ProbeError::HeightTooLarge(height) => "scaled height "@ + decimal(height as nat)
            + " exceeds u16"@,
    }
}

/// The message that reports a probe error.
pub fn probe_error_message(err: &ProbeError) -> (r: String)
    ensures
        r@ == probe_error_text(*err),
{
    match err {
        ProbeError::UnexpectedByteCount(bytes) => {
            let mut text = String::from_str("ffmpeg probe produced unexpected byte count ");
            push_decimal(&mut text, *bytes as u64);
            text
        },
        ProbeError::NotDivisible { bytes, width } => {
            let mut text = String::from_str("ffmpeg probe size ");
            push_decimal(&mut text, *bytes as u64);
            text.append(" is not divisible by width ");
            push_decimal(&mut text, *width as u64);
            text.append(" * 3");
            text
        },
        ProbeError::WidthTooLarge(width) => {
            let mut text = String::from_str("scaled width ");
            push_decimal(&mut text, *width as u64);
            text.append(" exceeds u16");
            text
        },
        ProbeError::HeightTooLarge(height) => {
            let mut text = String::from_str("scaled height ");
            push_decimal(&mut text, *height as u64);
            text.append(" exceeds u16");
            text
        },
    }
}

/// `"0x8086"`, Intel's PCI vendor id.
pub open spec fn intel_vendor_text() -> Seq<char> {
    seq!['0', 'x', '8', '0', '8', '6']
}

/// A render node (`renderD*`) whose vendor file reads `0x8086` once
/// surrounding whitespace is removed (sysfs ends it with a newline) is an
/// Intel render node.
pub proof fn lemma_intel_vendor_recognised(entry: RenderNodeEntry)
    requires
        entry.file_name matches Some(name) && has_prefix(name@, "renderD"@),
        entry.vendor matches Some(vendor) && trim(vendor@) == intel_vendor_text(),
    ensures
        is_intel_render_node(entry),
{
    reveal_strlit("0x8086");
    assert(INTEL_PCI_VENDOR@ =~= intel_vendor_text());
}

/// Whether an entry is an Intel render node depends on its vendor text
/// only through that text without surrounding whitespace: two entries of
/// the same name whose vendor texts trim to the same text are both Intel
/// render nodes or both not.
pub proof fn lemma_intel_node_depends_on_trimmed_vendor(a: RenderNodeEntry, b: RenderNodeEntry)
    requires
        a.file_name is Some,
        b.file_name is Some,
        entry_name(a) == entry_name(b),
        a.vendor is Some,
        b.vendor is Some,
        trim(a.vendor->0@) == trim(b.vendor->0@),
    ensures
        is_intel_render_node(a) == is_intel_render_node(b),
{
}

/// Without a request for a decode path, the choice is the automatic one,
/// the same as for any request other than `off`, `none` or `vaapi` (in any
/// ASCII case).
pub proof fn lemma_unset_request_is_automatic(
    request: Seq<char>,
    device: Option<Seq<char>>,
    intel_node: Option<Seq<char>>,
)
    requires
        !eq_ignore_ascii_case(request, "off"@),
        !eq_ignore_ascii_case(request, "none"@),
        !eq_ignore_ascii_case(request, "vaapi"@),
    ensures
        decode_choice(None, device, intel_node) == decode_choice(Some(request), device, intel_node),
{
}

/// The automatic choice: a configured (non-empty) device is used for
/// VAAPI; without one, the Intel render node found on the machine is used;
/// without either, frames are decoded in software.
pub proof fn lemma_automatic_choice(device: Option<Seq<char>>, intel_node: Option<Seq<char>>)
    ensures
        device is Some && device->0.len() > 0 ==> decode_choice(None, device, intel_node)
            == DecodeChoice::Vaapi(device->0),
        (device is None || device == Some(Seq::<char>::empty())) ==> decode_choice(
            None,
            device,
            intel_node,
        ) == match intel_node {
            Some(node) => DecodeChoice::Vaapi(node),
            None => DecodeChoice::Software,
        },
{
}

/// The filter samples at the requested rate on both decode paths: it
/// starts with `fps=`, the decimal rate and a comma, so its rate field
/// reads back as `fps`.
pub proof fn lemma_filter_rate_field(choice: DecodeChoice, fps: u32, scale_width: u32)
    ensures
        has_prefix(
            vf_filter_text(choice, fps, scale_width),
            "fps="@ + decimal(fps as nat) + seq![','],
        ),
        parse_unsigned(
            vf_filter_text(choice, fps, scale_width).subrange(4, 4 + decimal(fps as nat).len() as int),
            u32::MAX as nat,
        ) == Some(fps as nat),
{
    reveal_strlit("fps=");
    reveal_strlit(",scale=");
    reveal_strlit(",scale_vaapi=w=");
    let text = vf_filter_text(choice, fps, scale_width);
    let head = "fps="@ + decimal(fps as nat);
    let field = "fps="@ + decimal(fps as nat) + seq![','];
    crate::text::lemma_parse_decimal_roundtrip(fps as nat, u32::MAX as nat);
    assert(",scale="@[0] == ',');
    assert(",scale_vaapi=w="@[0] == ',');
    assert(text.take(field.len() as int) =~= field);
    assert(text.subrange(4, 4 + decimal(fps as nat).len() as int) =~= decimal(fps as nat));
}

/// A request for `off` or `none` (in any ASCII case) always decodes in
/// software; a request for `vaapi` always uses VAAPI, on the configured
/// device, else the Intel node, else the default render node.
pub proof fn lemma_requested_choice(
    request: Seq<char>,
    device: Option<Seq<char>>,
    intel_node: Option<Seq<char>>,
)
    ensures
        eq_ignore_ascii_case(request, "off"@) || eq_ignore_ascii_case(request, "none"@)
            ==> decode_choice(Some(request), device, intel_node) == DecodeChoice::Software,
        !eq_ignore_ascii_case(request, "off"@) && !eq_ignore_ascii_case(request, "none"@)
            && eq_ignore_ascii_case(request, "vaapi"@) ==> decode_choice(
            Some(request),
            device,
            intel_node,
        ) is Vaapi,
        !eq_ignore_ascii_case(request, "off"@) && !eq_ignore_ascii_case(request, "none"@)
            && eq_ignore_ascii_case(request, "vaapi"@) && device is Some && device->0.len() > 0
            ==> decode_choice(Some(request), device, intel_node) == DecodeChoice::Vaapi(
            device->0,
        ),
{
}

/// The ffmpeg command reads the given file and filters it with the filter
/// of the same settings: `-i` is followed by the path and `-vf` by the
/// filter; on the VAAPI path `-hwaccel_device` is followed by the device;
/// the extra output arguments come, in order, just before the five output
/// options, which end with `pipe:1`.
pub proof fn lemma_ffmpeg_args_layout(
    choice: DecodeChoice,
    path: Seq<char>,
    fps: u32,
    scale_width: u32,
    extra: Seq<Seq<char>>,
)
    ensures
        ({
            let args = ffmpeg_args_text(choice, path, fps, scale_width, extra);
            let hw: int = if choice is Vaapi { 6 } else { 0 };
            &&& args.len() == 13 + hw + extra.len()
            &&& args[4 + hw] == "-i"@ && args[5 + hw] == path
            &&& args[6 + hw] == "-vf"@ && args[7 + hw] == vf_filter_text(choice, fps, scale_width)
            &&& choice matches DecodeChoice::Vaapi(device) ==> args[5] == "-hwaccel_device"@
                && args[6] == device
            &&& args.subrange(8 + hw, 8 + hw + extra.len()) == extra
            &&& args.last() == "pipe:1"@
        }),
{
    let args = ffmpeg_args_text(choice, path, fps, scale_width, extra);
    let hw: int = if choice is Vaapi { 6 } else { 0 };
    assert(args.subrange(8 + hw, 8 + hw + extra.len()) =~= extra);
}

/// Dimensions from a probe account for every byte: on success the width
/// is the requested scale width and `width * height * 3` is the probe's
/// byte count; a probe whose bytes do not make whole rows of RGB24 pixels
/// of that width gives no dimensions.
pub proof fn lemma_probe_dimensions_exact(byte_count: nat, scale_width: nat)
    requires
        scale_width > 0,
    ensures
        probe_dimensions(byte_count, scale_width) matches Ok((w, h)) ==> w == scale_width && w * h
            * 3 == byte_count,
        byte_count % (3 * scale_width) != 0 || byte_count == 0 ==> probe_dimensions(
            byte_count,
            scale_width,
        ) is Err,
{
    if probe_dimensions(byte_count, scale_width) is Ok {
        let p = byte_count / 3;
        assert(p == (p / scale_width) * scale_width + p % scale_width) by (nonlinear_arith)
            requires
                scale_width > 0,
        ;
        assert(byte_count == 3 * p);
        assert(scale_width * (p / scale_width) * 3 == byte_count) by (nonlinear_arith)
            requires
                p == (p / scale_width) * scale_width,
                byte_count == 3 * p,
        ;
        assert(byte_count == (3 * scale_width) * (p / scale_width)) by (nonlinear_arith)
            requires
                p == (p / scale_width) * scale_width,
                byte_count == 3 * p,
        ;
        assert(byte_count % (3 * scale_width) == 0) by (nonlinear_arith)
            requires
                byte_count == (3 * scale_width) * (p / scale_width),
                scale_width > 0,
        ;
    }
}

} // verus!
