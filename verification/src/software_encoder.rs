//! Options of the software (libavcodec) encoders.
//!
//! The software encoders (SVT-AV1, x264, x265) are opened in-process with a
//! dictionary of codec options; this module computes that dictionary from
//! the encoder configuration.

use vstd::prelude::*;
use crate::error::{StageError, is_invalid_message};
use crate::text::{decimal, decimal_string, push_str};
use crate::video_encoder::{
    CodecConfig, VideoEncoderConfig, X264Tune, X265Tune, x264_preset_name, x264_tune_name,
    x265_tune_name,
};

verus! {

/// Names joined with `sep`.
pub open spec fn join_with(names: Seq<Seq<char>>, sep: Seq<char>) -> Seq<char>
    decreases names.len(),
{
    if names.len() == 0 {
        Seq::empty()
    } else if names.len() == 1 {
        names[0]
    } else {
        join_with(names.drop_last(), sep) + sep + names.last()
    }
}

/// An integer in decimal, with a leading `-` when negative.
pub open spec fn signed_decimal(i: int) -> Seq<char> {
    if i < 0 {
        "-"@ + decimal((-i) as nat)
    } else {
        decimal(i as nat)
    }
}

fn signed_decimal_string(i: i32) -> (s: String)
    ensures
        s@ == signed_decimal(i as int),
{
    if i < 0 {
        let magnitude: u64 = (0i64 - i as i64) as u64;
        let mut s = "-".to_string();
        push_str(&mut s, decimal_string(magnitude).as_str());
        s
    } else {
        decimal_string(i as u64)
    }
}

/// The text of each option pair.
pub open spec fn option_views(options: Seq<(String, String)>) -> Seq<(Seq<char>, Seq<char>)> {
    options.map_values(|p: (String, String)| (p.0@, p.1@))
}

fn push_option(options: &mut Vec<(String, String)>, key: &str, value: String)
    ensures
        option_views(final(options)@) == option_views(old(options)@).push((key@, value@)),
{
    let ghost v = value@;
    options.push((key.to_string(), value));
    proof {
        assert(option_views(options@) =~= option_views(old(options)@).push((key@, v)));
    }
}

/// The SVT-AV1 logical-processor count given to the encoder: the configured
/// count when it is between 1 and 6, otherwise 0 (automatic).
pub open spec fn svtav1_lp(lp: Option<u32>) -> u32 {
    match lp {
        Some(n) => if 1 <= n && n <= 6 {
            n
        } else {
            0
        },
        None => 0,
    }
}

/// `name` followed by a number, when the number is given.
pub open spec fn opt_param(name: Seq<char>, value: Option<u32>) -> Seq<char> {
    match value {
        Some(v) => name + decimal(v as nat),
        None => Seq::empty(),
    }
}

fn push_opt_param(s: &mut String, name: &str, value: Option<u32>)
    ensures
        final(s)@ == old(s)@ + opt_param(name@, value),
{
    if let Some(v) = value {
        push_str(s, name);
        push_str(s, decimal_string(v as u64).as_str());
    } else {
        assert(s@ =~= s@ + opt_param(name@, value));
    }
}

/// The film-grain denoising switch (`1` on, `0` off), when given.
pub open spec fn denoise_param(value: Option<bool>) -> Seq<char> {
    match value {
        Some(d) => ":film-grain-denoise="@ + if d {
            "1"@
        } else {
            "0"@
        },
        None => Seq::empty(),
    }
}

/// The look-ahead, when given (it may be `-1`, automatic).
pub open spec fn lookahead_param(value: Option<i32>) -> Seq<char> {
    match value {
        Some(la) => ":lookahead="@ + signed_decimal(la as int),
        None => Seq::empty(),
    }
}

/// The leading, always present part of `svtav1-params`.
pub open spec fn svtav1_head(lp: Option<u32>, pin: Option<u32>, preset: u32) -> Seq<char> {
    "lp="@ + decimal(svtav1_lp(lp) as nat) + ":pin="@ + decimal(
        match pin {
            Some(p) => p as nat,
            None => 0,
        },
    ) + ":preset="@ + decimal(preset as nat)
}

/// The `svtav1-params` option of an AV1 configuration.
pub open spec fn svtav1_params(
    lp: Option<u32>,
    pin: Option<u32>,
    preset: u32,
    film_grain: Option<u32>,
    film_grain_denoise: Option<bool>,
    lookahead: Option<i32>,
    fast_decode: Option<u32>,
) -> Seq<char> {
    svtav1_head(lp, pin, preset) + opt_param(":film-grain="@, film_grain) + denoise_param(
        film_grain_denoise,
    ) + lookahead_param(lookahead) + opt_param(":fast-decode="@, fast_decode)
}

fn svtav1_params_string(
    lp: Option<u32>,
    pin: Option<u32>,
    preset: u32,
    film_grain: Option<u32>,
    film_grain_denoise: Option<bool>,
    lookahead: Option<i32>,
    fast_decode: Option<u32>,
) -> (s: String)
    ensures
        s@ == svtav1_params(lp, pin, preset, film_grain, film_grain_denoise, lookahead, fast_decode),
{
    let lp_value: u32 = match lp {
        Some(n) => if 1 <= n && n <= 6 {
            n
        } else {
            0
        },
        None => 0,
    };
    let pin_value: u32 = match pin {
        Some(p) => p,
        None => 0,
    };
    let mut s = "lp=".to_string();
    push_str(&mut s, decimal_string(lp_value as u64).as_str());
    push_str(&mut s, ":pin=");
    push_str(&mut s, decimal_string(pin_value as u64).as_str());
    push_str(&mut s, ":preset=");
    push_str(&mut s, decimal_string(preset as u64).as_str());
    assert(s@ =~= svtav1_head(lp, pin, preset));
    push_opt_param(&mut s, ":film-grain=", film_grain);
    let ghost before_denoise = s@;
    if let Some(d) = film_grain_denoise {
        push_str(&mut s, ":film-grain-denoise=");
        push_str(&mut s, if d { "1" } else { "0" });
    }
    assert(s@ =~= before_denoise + denoise_param(film_grain_denoise));
    let ghost before_lookahead = s@;
    if let Some(la) = lookahead {
        push_str(&mut s, ":lookahead=");
        push_str(&mut s, signed_decimal_string(la).as_str());
    }
    assert(s@ =~= before_lookahead + lookahead_param(lookahead));
    push_opt_param(&mut s, ":fast-decode=", fast_decode);
    assert(s@ =~= svtav1_params(
        lp,
        pin,
        preset,
        film_grain,
        film_grain_denoise,
        lookahead,
        fast_decode,
    ));
    s
}

/// The names of x264 tunes, in order.
pub open spec fn x264_tune_names(tunes: Seq<X264Tune>) -> Seq<Seq<char>> {
    tunes.map_values(|t: X264Tune| x264_tune_name(t))
}

/// The names of x265 tunes, in order.
pub open spec fn x265_tune_names(tunes: Seq<X265Tune>) -> Seq<Seq<char>> {
    tunes.map_values(|t: X265Tune| x265_tune_name(t))
}

fn join_x264_tunes(tunes: &Vec<X264Tune>) -> (s: String)
    ensures
        s@ == join_with(x264_tune_names(tunes@), ","@),
{
    let mut s = String::new();
    let mut i: usize = 0;
    while i < tunes.len()
        invariant
            i <= tunes@.len(),
            s@ == join_with(x264_tune_names(tunes@.take(i as int)), ","@),
        decreases tunes.len() - i,
    {
        if i > 0 {
            push_str(&mut s, ",");
        }
        push_str(&mut s, tunes[i].as_str());
        i += 1;
        proof {
            let names = x264_tune_names(tunes@.take(i as int));
            assert(names.drop_last() =~= x264_tune_names(tunes@.take(i - 1)));
            if i == 1 {
                assert(s@ =~= names[0]);
            }
        }
    }
    assert(tunes@.take(tunes@.len() as int) =~= tunes@);
    s
}

fn join_x265_tunes(tunes: &Vec<X265Tune>) -> (s: String)
    ensures
        s@ == join_with(x265_tune_names(tunes@), ","@),
{
    let mut s = String::new();
    let mut i: usize = 0;
    while i < tunes.len()
        invariant
            i <= tunes@.len(),
            s@ == join_with(x265_tune_names(tunes@.take(i as int)), ","@),
        decreases tunes.len() - i,
    {
        if i > 0 {
            push_str(&mut s, ",");
        }
        push_str(&mut s, tunes[i].as_str());
        i += 1;
        proof {
            let names = x265_tune_names(tunes@.take(i as int));
            assert(names.drop_last() =~= x265_tune_names(tunes@.take(i - 1)));
            if i == 1 {
                assert(s@ =~= names[0]);
            }
        }
    }
    assert(tunes@.take(tunes@.len() as int) =~= tunes@);
    s
}

/// The `x265-params` entries of an H.265 configuration, in order.
pub open spec fn x265_param_entries(
    threads: Option<u32>,
    tune: Seq<X265Tune>,
    frame_threads: Option<u32>,
) -> Seq<Seq<char>> {
    (match threads {
        Some(t) => seq!["pools="@ + decimal(t as nat)],
        None => Seq::empty(),
    }) + (if tune.len() > 0 {
        seq!["tune="@ + join_with(x265_tune_names(tune), ","@)]
    } else {
        Seq::empty()
    }) + match frame_threads {
        Some(f) => seq!["frame-threads="@ + decimal(f as nat)],
        None => Seq::empty(),
    }
}

/// The refusal of a hardware codec by the in-process encoder.
pub open spec fn hardware_codec_message() -> Seq<char> {
    "Hardware codecs must use a subprocess encoder, not SoftwareVideoEncoder. This is an internal error - please report it as a bug."@
}

/// The codec options of the in-process encoder: the CRF and GOP, then the
/// codec's own options; hardware codecs are refused.
pub open spec fn software_options(c: VideoEncoderConfig) -> Result<Seq<(Seq<char>, Seq<char>)>, Seq<char>> {
    let common = seq![("crf"@, c.crf@), ("g"@, decimal(c.gop as nat))];
    match c.codec_config {
        CodecConfig::AV1 { lp, pin, preset, film_grain, film_grain_denoise, lookahead, fast_decode } =>
            Ok(
            common.push(
                (
                    "svtav1-params"@,
                    svtav1_params(
                        lp,
                        pin,
                        preset,
                        film_grain,
                        film_grain_denoise,
                        lookahead,
                        fast_decode,
                    ),
                ),
            ),
        ),
        CodecConfig::H264 { threads, preset, tune } => Ok(
            common.push(("preset"@, x264_preset_name(preset))) + (match threads {
                Some(t) => seq![("threads"@, decimal(t as nat))],
                None => Seq::empty(),
            }) + if tune@.len() > 0 {
                seq![("tune"@, join_with(x264_tune_names(tune@), ","@))]
            } else {
                Seq::empty()
            },
        ),
        CodecConfig::H265 { threads, preset, tune, frame_threads } => {
            let entries = x265_param_entries(threads, tune@, frame_threads);
            Ok(
                common.push(("preset"@, x264_preset_name(preset))) + if entries.len() > 0 {
                    seq![("x265-params"@, join_with(entries, ":"@))]
                } else {
                    Seq::empty()
                },
            )
        },
        _ => Err(hardware_codec_message()),
    }
}

fn x265_params_string(threads: Option<u32>, tune: &Vec<X265Tune>, frame_threads: Option<u32>) -> (r:
    (String, usize))
    ensures
        r.0@ == join_with(x265_param_entries(threads, tune@, frame_threads), ":"@),
        r.1 == x265_param_entries(threads, tune@, frame_threads).len(),
{
    let ghost entries = x265_param_entries(threads, tune@, frame_threads);
    let ghost e1: Seq<Seq<char>> = match threads {
        Some(t) => seq!["pools="@ + decimal(t as nat)],
        None => Seq::empty(),
    };
    let ghost e2: Seq<Seq<char>> = if tune@.len() > 0 {
        seq!["tune="@ + join_with(x265_tune_names(tune@), ","@)]
    } else {
        Seq::empty()
    };
    let mut s = String::new();
    let mut count: usize = 0;
    if let Some(t) = threads {
        push_str(&mut s, "pools=");
        push_str(&mut s, decimal_string(t as u64).as_str());
        count = 1;
    }
    proof {
        assert(e1.len() == count);
        assert(s@ =~= join_with(e1, ":"@));
    }
    if tune.len() > 0 {
        if count > 0 {
            push_str(&mut s, ":");
        }
        push_str(&mut s, "tune=");
        push_str(&mut s, join_x265_tunes(tune).as_str());
        count = count + 1;
    }
    proof {
        let p = e1 + e2;
        assert(p.len() == count);
        if e2.len() > 0 {
            assert(p.drop_last() =~= e1);
        } else {
            assert(p =~= e1);
        }
        assert(s@ =~= join_with(p, ":"@));
    }
    if let Some(f) = frame_threads {
        if count > 0 {
            push_str(&mut s, ":");
        }
        push_str(&mut s, "frame-threads=");
        push_str(&mut s, decimal_string(f as u64).as_str());
        count = count + 1;
    }
    proof {
        let p = e1 + e2;
        assert(entries =~= p + match frame_threads {
            Some(f) => seq!["frame-threads="@ + decimal(f as nat)],
            None => Seq::<Seq<char>>::empty(),
        });
        if frame_threads is Some {
            assert(entries.drop_last() =~= p);
        } else {
            assert(entries =~= p);
        }
        assert(s@ =~= join_with(entries, ":"@));
    }
    (s, count)
}

/// Computes the codec options of the in-process encoder.
pub fn software_encoder_options(config: &VideoEncoderConfig) -> (r: Result<
    Vec<(String, String)>,
    StageError,
>)
    ensures
        match software_options(*config) {
            Ok(o) => r matches Ok(v) && option_views(v@) == o,
            Err(m) => r matches Err(e) && is_invalid_message(e, m),
        },
{
    let mut options: Vec<(String, String)> = Vec::new();
    match &config.codec_config {
        CodecConfig::AV1 { .. } | CodecConfig::H264 { .. } | CodecConfig::H265 { .. } => {},
        _ => {
            return Err(
                StageError::invalid(
                    "Hardware codecs must use a subprocess encoder, not SoftwareVideoEncoder. This is an internal error - please report it as a bug.",
                ),
            );
        },
    }
    push_option(&mut options, "crf", config.crf.clone());
    push_option(&mut options, "g", decimal_string(config.gop as u64));
    let ghost common = option_views(options@);
    match &config.codec_config {
        CodecConfig::AV1 { lp, pin, preset, film_grain, film_grain_denoise, lookahead, fast_decode } => {
            push_option(
                &mut options,
                "svtav1-params",
                svtav1_params_string(
                    *lp,
                    *pin,
                    *preset,
                    *film_grain,
                    *film_grain_denoise,
                    *lookahead,
                    *fast_decode,
                ),
            );
        },
        CodecConfig::H264 { threads, preset, tune } => {
            push_option(&mut options, "preset", preset.as_str().to_string());
            let ghost with_preset = option_views(options@);
            if let Some(t) = threads {
                push_option(&mut options, "threads", decimal_string(*t as u64));
            }
            let ghost with_threads = option_views(options@);
            if tune.len() > 0 {
                push_option(&mut options, "tune", join_x264_tunes(tune));
            }
            proof {
                assert(option_views(options@) =~= software_options(*config)->Ok_0);
            }
        },
        CodecConfig::H265 { threads, preset, tune, frame_threads } => {
            push_option(&mut options, "preset", preset.as_str().to_string());
            let (params, count) = x265_params_string(*threads, tune, *frame_threads);
            if count > 0 {
                push_option(&mut options, "x265-params", params);
            }
            proof {
                assert(option_views(options@) =~= software_options(*config)->Ok_0);
            }
        },
        _ => {},
    }
    proof {
        assert(option_views(options@) =~= software_options(*config)->Ok_0);
    }
    Ok(options)
}

} // verus!
