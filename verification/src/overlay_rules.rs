//! Rules for the VR overlay: placement ranges, timing, sizes and the enumerated options.
use vstd::prelude::*;

use crate::config::{VrOverlayConfig, VrOverlayHeadsetConfig, VrOverlayWristConfig};
use crate::float_bits::{in_range, in_range_bits, lemma_bits_arith, lt, lt_bits, F32};
use crate::rules::{err_of, then};
use crate::text::{concat, concat3, str_eq};

verus! {

/// `-2.0` as a binary32 encoding.
pub const F32_MINUS_2: u32 = 0xc000_0000;
/// `2.0` as a binary32 encoding.
pub const F32_2: u32 = 0x4000_0000;
/// `0.25` as a binary32 encoding.
pub const F32_0_25: u32 = 0x3e80_0000;
/// `5.0` as a binary32 encoding.
pub const F32_5: u32 = 0x40a0_0000;
/// `-90.0` as a binary32 encoding.
pub const F32_MINUS_90: u32 = 0xc2b4_0000;
/// `90.0` as a binary32 encoding.
pub const F32_90: u32 = 0x42b4_0000;
/// `-180.0` as a binary32 encoding.
pub const F32_MINUS_180: u32 = 0xc334_0000;
/// `180.0` as a binary32 encoding.
pub const F32_180: u32 = 0x4334_0000;
/// `3.0` as a binary32 encoding.
pub const F32_3: u32 = 0x4040_0000;
/// `0.1` as a binary32 encoding.
pub const F32_0_1: u32 = 0x3dcc_cccd;
/// `1.0` as a binary32 encoding.
pub const F32_1: u32 = 0x3f80_0000;
/// `30.0` as a binary32 encoding.
pub const F32_30: u32 = 0x41f0_0000;
/// `0.0` as a binary32 encoding.
pub const F32_0: u32 = 0x0000_0000;
/// `-0.5` as a binary32 encoding.
pub const F32_MINUS_0_5: u32 = 0xbf00_0000;
/// `0.5` as a binary32 encoding.
pub const F32_0_5: u32 = 0x3f00_0000;

/// Why `v` is outside `lo..=hi`; the bounds are written as `lo_text` and `hi_text`.
pub open spec fn range_err(
    label: Seq<char>,
    v: F32,
    lo: u32,
    hi: u32,
    lo_text: Seq<char>,
    hi_text: Seq<char>,
) -> Option<Seq<char>> {
    if in_range_bits(v.bits, lo, hi) {
        None
    } else {
        Some(label + " must be between "@ + lo_text + " and "@ + hi_text)
    }
}

fn check_range(label: &str, v: F32, lo: u32, hi: u32, lo_text: &str, hi_text: &str) -> (r: Result<
    (),
    String,
>)
    ensures
        err_of(r) == range_err(label@, v, lo, hi, lo_text@, hi_text@),
{
    if in_range(v, F32::from_bits(lo), F32::from_bits(hi)) {
        Ok(())
    } else {
        let mut e = concat3(label, " must be between ", lo_text);
        crate::text::push_str(&mut e, " and ");
        crate::text::push_str(&mut e, hi_text);
        Err(e)
    }
}

/// Why a content mode is not one of `original`, `translation`, `bilingual`.
pub open spec fn content_mode_err(label: Seq<char>, value: Seq<char>) -> Option<Seq<char>> {
    if value != "original"@ && value != "translation"@ && value != "bilingual"@ {
        Some("Unsupported "@ + label + " content_mode: "@ + value)
    } else {
        None
    }
}

fn check_content_mode(label: &str, value: &str) -> (r: Result<(), String>)
    ensures
        err_of(r) == content_mode_err(label@, value@),
{
    if !str_eq(value, "original") && !str_eq(value, "translation") && !str_eq(value, "bilingual") {
        let head = concat3("Unsupported ", label, " content_mode: ");
        return Err(concat(head.as_str(), value));
    }
    Ok(())
}

/// Why the headset overlay is not acceptable.
pub open spec fn headset_err(h: VrOverlayHeadsetConfig) -> Option<Seq<char>> {
    then(
        content_mode_err("VR Overlay headset"@, h.content_mode@),
        then(
            range_err("VR Overlay headset offset_x_m"@, h.offset_x_m, F32_MINUS_2, F32_2, "-2"@, "2"@),
            then(
                range_err(
                    "VR Overlay headset offset_y_m"@,
                    h.offset_y_m,
                    F32_MINUS_2,
                    F32_2,
                    "-2"@,
                    "2"@,
                ),
                then(
                    range_err(
                        "VR Overlay headset distance_m"@,
                        h.distance_m,
                        F32_0_25,
                        F32_5,
                        "0.25"@,
                        "5"@,
                    ),
                    then(
                        range_err(
                            "VR Overlay headset pitch_deg"@,
                            h.pitch_deg,
                            F32_MINUS_90,
                            F32_90,
                            "-90"@,
                            "90"@,
                        ),
                        then(
                            range_err(
                                "VR Overlay headset yaw_deg"@,
                                h.yaw_deg,
                                F32_MINUS_180,
                                F32_180,
                                "-180"@,
                                "180"@,
                            ),
                            then(
                                range_err(
                                    "VR Overlay headset roll_deg"@,
                                    h.roll_deg,
                                    F32_MINUS_180,
                                    F32_180,
                                    "-180"@,
                                    "180"@,
                                ),
                                headset_size_err(h),
                            ),
                        ),
                    ),
                ),
            ),
        ),
    )
}

/// The headset rules on size, opacity and timing, in order.
pub open spec fn headset_size_err(h: VrOverlayHeadsetConfig) -> Option<Seq<char>> {
    then(
        range_err("VR Overlay headset width_m"@, h.width_m, F32_0_25, F32_3, "0.25"@, "3"@),
        then(
            range_err("VR Overlay headset opacity"@, h.opacity, F32_0_1, F32_1, "0.1"@, "1"@),
            then(
                range_err(
                    "VR Overlay headset display_seconds"@,
                    h.display_seconds,
                    F32_1,
                    F32_30,
                    "1"@,
                    "30"@,
                ),
                then(
                    range_err(
                        "VR Overlay headset fade_seconds"@,
                        h.fade_seconds,
                        F32_0,
                        F32_5,
                        "0"@,
                        "5"@,
                    ),
                    if lt_bits(h.display_seconds.bits, h.fade_seconds.bits) {
                        Some("VR Overlay headset fade_seconds cannot exceed display_seconds"@)
                    } else if !(24 <= h.font_size_px <= 96) {
                        Some("VR Overlay headset font_size_px must be between 24 and 96"@)
                    } else {
                        range_err(
                            "VR Overlay headset background_opacity"@,
                            h.background_opacity,
                            F32_0,
                            F32_1,
                            "0"@,
                            "1"@,
                        )
                    },
                ),
            ),
        ),
    )
}

fn validate_headset(h: &VrOverlayHeadsetConfig) -> (r: Result<(), String>)
    ensures
        err_of(r) == headset_err(*h),
{
    check_content_mode("VR Overlay headset", h.content_mode.as_str())?;
    check_range("VR Overlay headset offset_x_m", h.offset_x_m, F32_MINUS_2, F32_2, "-2", "2")?;
    check_range("VR Overlay headset offset_y_m", h.offset_y_m, F32_MINUS_2, F32_2, "-2", "2")?;
    check_range("VR Overlay headset distance_m", h.distance_m, F32_0_25, F32_5, "0.25", "5")?;
    check_range("VR Overlay headset pitch_deg", h.pitch_deg, F32_MINUS_90, F32_90, "-90", "90")?;
    check_range("VR Overlay headset yaw_deg", h.yaw_deg, F32_MINUS_180, F32_180, "-180", "180")?;
    check_range(
        "VR Overlay headset roll_deg",
        h.roll_deg,
        F32_MINUS_180,
        F32_180,
        "-180",
        "180",
    )?;
    check_range("VR Overlay headset width_m", h.width_m, F32_0_25, F32_3, "0.25", "3")?;
    check_range("VR Overlay headset opacity", h.opacity, F32_0_1, F32_1, "0.1", "1")?;
    check_range(
        "VR Overlay headset display_seconds",
        h.display_seconds,
        F32_1,
        F32_30,
        "1",
        "30",
    )?;
    check_range("VR Overlay headset fade_seconds", h.fade_seconds, F32_0, F32_5, "0", "5")?;
    if lt(h.display_seconds, h.fade_seconds) {
        return Err("VR Overlay headset fade_seconds cannot exceed display_seconds".to_owned());
    }
    if !(24 <= h.font_size_px && h.font_size_px <= 96) {
        return Err("VR Overlay headset font_size_px must be between 24 and 96".to_owned());
    }
    check_range(
        "VR Overlay headset background_opacity",
        h.background_opacity,
        F32_0,
        F32_1,
        "0",
        "1",
    )
}

/// Why the wrist overlay is not acceptable.
pub open spec fn wrist_err(w: VrOverlayWristConfig) -> Option<Seq<char>> {
    let hand = w.hand@;
    let dominant = w.dominant_hand@;
    if hand != "left"@ && hand != "right"@ && hand != "dominant"@ {
        Some("Unsupported VR Overlay wrist hand: "@ + hand)
    } else if dominant != "left"@ && dominant != "right"@ {
        Some("Unsupported VR Overlay wrist dominant_hand: "@ + dominant)
    } else if content_mode_err("VR Overlay wrist"@, w.content_mode@).is_some() {
        content_mode_err("VR Overlay wrist"@, w.content_mode@)
    } else if !(3 <= w.max_entries <= 10) {
        Some("VR Overlay wrist max_entries must be between 3 and 10"@)
    } else if w.idle_hide_seconds != 0 && !(5 <= w.idle_hide_seconds <= 120) {
        Some("VR Overlay wrist idle_hide_seconds must be 0 or between 5 and 120"@)
    } else {
        wrist_placement_err(w)
    }
}

/// The wrist rules on placement, size and opacity, in order.
pub open spec fn wrist_placement_err(w: VrOverlayWristConfig) -> Option<Seq<char>> {
    then(
        range_err("VR Overlay wrist offset_x_m"@, w.offset_x_m, F32_MINUS_0_5, F32_0_5, "-0.5"@, "0.5"@),
        then(
            range_err(
                "VR Overlay wrist offset_y_m"@,
                w.offset_y_m,
                F32_MINUS_0_5,
                F32_0_5,
                "-0.5"@,
                "0.5"@,
            ),
            then(
                range_err(
                    "VR Overlay wrist offset_z_m"@,
                    w.offset_z_m,
                    F32_MINUS_0_5,
                    F32_0_5,
                    "-0.5"@,
                    "0.5"@,
                ),
                then(
                    range_err(
                        "VR Overlay wrist pitch_deg"@,
                        w.pitch_deg,
                        F32_MINUS_180,
                        F32_180,
                        "-180"@,
                        "180"@,
                    ),
                    then(
                        range_err(
                            "VR Overlay wrist yaw_deg"@,
                            w.yaw_deg,
                            F32_MINUS_180,
                            F32_180,
                            "-180"@,
                            "180"@,
                        ),
                        then(
                            range_err(
                                "VR Overlay wrist roll_deg"@,
                                w.roll_deg,
                                F32_MINUS_180,
                                F32_180,
                                "-180"@,
                                "180"@,
                            ),
                            wrist_size_err(w),
                        ),
                    ),
                ),
            ),
        ),
    )
}

/// The wrist rules on width, opacity and font size, in order.
pub open spec fn wrist_size_err(w: VrOverlayWristConfig) -> Option<Seq<char>> {
    then(
        range_err("VR Overlay wrist width_m"@, w.width_m, F32_0_1, F32_1, "0.1"@, "1"@),
        then(
            range_err("VR Overlay wrist opacity"@, w.opacity, F32_0_1, F32_1, "0.1"@, "1"@),
            if !(18 <= w.font_size_px <= 72) {
                Some("VR Overlay wrist font_size_px must be between 18 and 72"@)
            } else {
                range_err(
                    "VR Overlay wrist background_opacity"@,
                    w.background_opacity,
                    F32_0,
                    F32_1,
                    "0"@,
                    "1"@,
                )
            },
        ),
    )
}

fn validate_wrist(w: &VrOverlayWristConfig) -> (r: Result<(), String>)
    ensures
        err_of(r) == wrist_err(*w),
{
    let hand = w.hand.as_str();
    if !str_eq(hand, "left") && !str_eq(hand, "right") && !str_eq(hand, "dominant") {
        return Err(concat("Unsupported VR Overlay wrist hand: ", hand));
    }
    let dominant = w.dominant_hand.as_str();
    if !str_eq(dominant, "left") && !str_eq(dominant, "right") {
        return Err(concat("Unsupported VR Overlay wrist dominant_hand: ", dominant));
    }
    check_content_mode("VR Overlay wrist", w.content_mode.as_str())?;
    if !(3 <= w.max_entries && w.max_entries <= 10) {
        return Err("VR Overlay wrist max_entries must be between 3 and 10".to_owned());
    }
    if w.idle_hide_seconds != 0 && !(5 <= w.idle_hide_seconds && w.idle_hide_seconds <= 120) {
        return Err("VR Overlay wrist idle_hide_seconds must be 0 or between 5 and 120".to_owned());
    }
    check_range("VR Overlay wrist offset_x_m", w.offset_x_m, F32_MINUS_0_5, F32_0_5, "-0.5", "0.5")?;
    check_range("VR Overlay wrist offset_y_m", w.offset_y_m, F32_MINUS_0_5, F32_0_5, "-0.5", "0.5")?;
    check_range("VR Overlay wrist offset_z_m", w.offset_z_m, F32_MINUS_0_5, F32_0_5, "-0.5", "0.5")?;
    check_range("VR Overlay wrist pitch_deg", w.pitch_deg, F32_MINUS_180, F32_180, "-180", "180")?;
    check_range("VR Overlay wrist yaw_deg", w.yaw_deg, F32_MINUS_180, F32_180, "-180", "180")?;
    check_range("VR Overlay wrist roll_deg", w.roll_deg, F32_MINUS_180, F32_180, "-180", "180")?;
    check_range("VR Overlay wrist width_m", w.width_m, F32_0_1, F32_1, "0.1", "1")?;
    check_range("VR Overlay wrist opacity", w.opacity, F32_0_1, F32_1, "0.1", "1")?;
    if !(18 <= w.font_size_px && w.font_size_px <= 72) {
        return Err("VR Overlay wrist font_size_px must be between 18 and 72".to_owned());
    }
    check_range(
        "VR Overlay wrist background_opacity",
        w.background_opacity,
        F32_0,
        F32_1,
        "0",
        "1",
    )
}

/// Why the VR overlay configuration is not acceptable.
pub open spec fn overlay_err(c: VrOverlayConfig) -> Option<Seq<char>> {
    let d = c.translation_display@;
    if d != "preferred_only"@ && d != "all_languages"@ {
        Some("Unsupported VR Overlay translation_display: "@ + d)
    } else {
        then(headset_err(c.headset), wrist_err(c.wrist))
    }
}

/// Checks the translation display option, then the headset and wrist overlays.
pub fn validate_vr_overlay(config: &VrOverlayConfig) -> (r: Result<(), String>)
    ensures
        err_of(r) == overlay_err(*config),
{
    let d = config.translation_display.as_str();
    if !str_eq(d, "preferred_only") && !str_eq(d, "all_languages") {
        return Err(concat("Unsupported VR Overlay translation_display: ", d));
    }
    validate_headset(&config.headset)?;
    validate_wrist(&config.wrist)
}

/// The shipped overlay settings pass every overlay rule.
pub proof fn lemma_default_overlay_valid(c: VrOverlayConfig)
    requires
        crate::config::default_overlay(c),
    ensures
        overlay_err(c).is_none(),
{
    lemma_bits_arith(0u32);
    lemma_bits_arith(0xbe19_999au32);
    lemma_bits_arith(0x3f80_0000u32);
    lemma_bits_arith(0x3f66_6666u32);
    lemma_bits_arith(0x40a0_0000u32);
    lemma_bits_arith(0x3f19_999au32);
    lemma_bits_arith(0x3e99_999au32);
    lemma_bits_arith(0x3f73_3333u32);
    lemma_bits_arith(0x3f33_3333u32);
    lemma_bits_arith(F32_MINUS_2);
    lemma_bits_arith(F32_2);
    lemma_bits_arith(F32_0_25);
    lemma_bits_arith(F32_5);
    lemma_bits_arith(F32_MINUS_90);
    lemma_bits_arith(F32_90);
    lemma_bits_arith(F32_MINUS_180);
    lemma_bits_arith(F32_180);
    lemma_bits_arith(F32_3);
    lemma_bits_arith(F32_0_1);
    lemma_bits_arith(F32_1);
    lemma_bits_arith(F32_30);
    lemma_bits_arith(F32_0);
    lemma_bits_arith(F32_MINUS_0_5);
    lemma_bits_arith(F32_0_5);
}

} // verus!
