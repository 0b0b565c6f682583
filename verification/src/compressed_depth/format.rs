//! Parsing of the ROS `CompressedImage.format` string of a compressedDepth topic.

use vstd::prelude::*;
use crate::error::{StageError, is_invalid_message};
use crate::text::{
    ascii_lowercase, ascii_lowercase_chars, chars_contain, chars_eq_str, contains, first_index_of,
    find_char, push_str, str_chars, string_from_chars, sub_chars, trim, trim_chars, trim_end,
    trim_start, is_whitespace,
};

verus! {

/// Structured variants of ROS `compressedDepth` transport.
#[derive(Debug, Clone, Copy, PartialEq, Eq, Structural)]
pub enum CompressedDepthFormat {
    Depth16Png,
    Depth16Rvl,
    Depth32FPng,
}

/// The format string trimmed and lowercased (ASCII).
pub open spec fn normalized_format(s: Seq<char>) -> Seq<char> {
    ascii_lowercase(trim(s))
}

/// The encoding and transport parts of a normalized format string: the trimmed
/// text around the first `;`, or the whole string and `compresseddepth png`
/// when there is no `;`.
pub open spec fn format_components(n: Seq<char>) -> (Seq<char>, Seq<char>) {
    match first_index_of(n, ';') {
        Some(i) => (trim(n.subrange(0, i)), trim(n.subrange(i + 1, n.len() as int))),
        None => (n, "compresseddepth png"@),
    }
}

/// Maps historical transport strings onto the supported ones: an empty or bare
/// `compresseddepth` transport, and any transport not naming compressedDepth,
/// mean PNG; everything else is kept.
pub open spec fn normalized_transport(t: Seq<char>) -> Seq<char> {
    if t.len() == 0 || t == "compresseddepth"@ {
        "compresseddepth png"@
    } else if t == "compresseddepth png"@ {
        "compresseddepth png"@
    } else if t == "compresseddepth rvl"@ {
        "compresseddepth rvl"@
    } else if !contains(t, "compresseddepth"@) {
        "compresseddepth png"@
    } else {
        t
    }
}

/// What a format string parses to; `Err` holds the message of the refusal.
pub open spec fn format_parsing(s: Seq<char>) -> Result<CompressedDepthFormat, Seq<char>> {
    let (encoding, raw_transport) = format_components(normalized_format(s));
    let transport = normalized_transport(raw_transport);
    if encoding == "16uc1"@ && transport == "compresseddepth png"@ {
        Ok(CompressedDepthFormat::Depth16Png)
    } else if encoding == "16uc1"@ && transport == "compresseddepth rvl"@ {
        Ok(CompressedDepthFormat::Depth16Rvl)
    } else if encoding == "32fc1"@ && transport == "compresseddepth png"@ {
        Ok(CompressedDepthFormat::Depth32FPng)
    } else if encoding == "16uc1"@ {
        Err("unsupported compressedDepth codec for 16UC1: "@ + transport + " (from "@ + s + ")"@)
    } else if encoding == "32fc1"@ {
        Err("unsupported compressedDepth codec for 32FC1: "@ + transport + " (from "@ + s + ")"@)
    } else {
        Err("unsupported compressedDepth encoding '"@ + encoding + "' in format: "@ + s)
    }
}

impl CompressedDepthFormat {
    /// Parses the ROS `CompressedImage.format` string for a compressedDepth topic,
    /// e.g. `16UC1; compressedDepth png`, `16UC1; compressedDepth rvl` or
    /// `32FC1; compressedDepth png`. A missing compression suffix means `png`.
    pub fn parse(ros_format: &str) -> (r: Result<Self, StageError>)
        ensures
            match format_parsing(ros_format@) {
                Ok(f) => r == Ok::<CompressedDepthFormat, StageError>(f),
                Err(m) => r matches Err(e) && is_invalid_message(e, m),
            },
    {
        let chars = str_chars(ros_format);
        let normalized = ascii_lowercase_chars(&trim_chars(&chars));
        let (encoding, raw_transport) = split_format_components(&normalized);
        let transport = normalize_transport_suffix(&raw_transport);
        let is16 = chars_eq_str(&encoding, "16uc1");
        let is32 = chars_eq_str(&encoding, "32fc1");
        let png = chars_eq_str(&transport, "compresseddepth png");
        let rvl = chars_eq_str(&transport, "compresseddepth rvl");
        if is16 && png {
            Ok(CompressedDepthFormat::Depth16Png)
        } else if is16 && rvl {
            Ok(CompressedDepthFormat::Depth16Rvl)
        } else if is32 && png {
            Ok(CompressedDepthFormat::Depth32FPng)
        } else if is16 || is32 {
            let mut m = if is16 {
                "unsupported compressedDepth codec for 16UC1: ".to_string()
            } else {
                "unsupported compressedDepth codec for 32FC1: ".to_string()
            };
            push_str(&mut m, string_from_chars(transport).as_str());
            push_str(&mut m, " (from ");
            push_str(&mut m, ros_format);
            push_str(&mut m, ")");
            Err(StageError::invalid_owned(m))
        } else {
            let mut m = "unsupported compressedDepth encoding '".to_string();
            push_str(&mut m, string_from_chars(encoding).as_str());
            push_str(&mut m, "' in format: ");
            push_str(&mut m, ros_format);
            Err(StageError::invalid_owned(m))
        }
    }
}

/// Splits a normalized ROS format string into encoding and transport parts.
fn split_format_components(normalized_format: &Vec<char>) -> (r: (Vec<char>, Vec<char>))
    ensures
        (r.0@, r.1@) == format_components(normalized_format@),
{
    match find_char(normalized_format, ';') {
        Some(i) => {
            let n = normalized_format.len();
            assert(i < n);
            let j = i + 1;
            let encoding = trim_chars(&sub_chars(normalized_format, 0, i));
            let compression = trim_chars(&sub_chars(normalized_format, j, n));
            (encoding, compression)
        },
        None => (normalized_format.clone(), str_chars("compresseddepth png")),
    }
}

/// Normalizes historical `CompressedImage.format` variations to one of the
/// transport strings that are supported.
fn normalize_transport_suffix(transport_suffix: &Vec<char>) -> (r: Vec<char>)
    ensures
        r@ == normalized_transport(transport_suffix@),
{
    if transport_suffix.len() == 0 || chars_eq_str(transport_suffix, "compresseddepth") {
        str_chars("compresseddepth png")
    } else if chars_eq_str(transport_suffix, "compresseddepth png") {
        str_chars("compresseddepth png")
    } else if chars_eq_str(transport_suffix, "compresseddepth rvl") {
        str_chars("compresseddepth rvl")
    } else if !chars_contain(transport_suffix, &str_chars("compresseddepth")) {
        str_chars("compresseddepth png")
    } else {
        transport_suffix.clone()
    }
}

/// The format string that ROS writes for RVL depth parses as RVL depth.
pub proof fn lemma_rvl_format_string()
    ensures
        format_parsing("16UC1; compressedDepth rvl"@) == Ok::<CompressedDepthFormat, Seq<char>>(
            CompressedDepthFormat::Depth16Rvl,
        ),
{
    reveal_strlit("16UC1; compressedDepth rvl");
    reveal_strlit("16uc1; compresseddepth rvl");
    reveal_strlit("16uc1");
    reveal_strlit("compresseddepth rvl");
    reveal_strlit("compresseddepth png");
    reveal_strlit("compresseddepth");
    let s = "16UC1; compressedDepth rvl"@;
    assert(s.len() == 26);
    assert(!is_whitespace(s[0]));
    assert(trim_start(s) == s);
    assert(!is_whitespace(s.last()));
    assert(trim_end(s) == s);
    let n = ascii_lowercase(trim(s));
    assert(n =~= "16uc1; compresseddepth rvl"@);
    assert(n[5] == ';');
    assert(forall|k: int| 0 <= k < 5 ==> n[k] != ';');
    assert(first_index_of(n, ';') == Some(5int)) by {
        let i = choose|i: int| 0 <= i < n.len() && n[i] == ';' && forall|k: int| 0 <= k < i ==> n[k] != ';';
        assert(0 <= 5 < n.len() && n[5] == ';' && forall|k: int| 0 <= k < 5 ==> n[k] != ';');
        if i > 5 {
            assert(n[5] != ';');
        }
    }
    let e = n.subrange(0, 5);
    assert(!is_whitespace(e[0]) && !is_whitespace(e.last()));
    assert(trim_start(e) == e);
    assert(trim_end(e) == e);
    assert(trim(e) =~= "16uc1"@);
    let t = n.subrange(6, 26);
    assert(is_whitespace(t[0]));
    let t1 = t.drop_first();
    assert(!is_whitespace(t1[0]));
    assert(trim_start(t1) == t1);
    assert(trim_start(t) == t1);
    assert(!is_whitespace(t1.last()));
    assert(trim_end(t1) == t1);
    assert(trim(t) =~= "compresseddepth rvl"@);
    let tr = trim(t);
    assert(tr.len() != 0);
    assert(tr != "compresseddepth"@);
    assert(tr[16] != "compresseddepth png"@[16]);
    assert(tr != "compresseddepth png"@);
    assert(format_components(n) == ("16uc1"@, "compresseddepth rvl"@));
    assert(normalized_transport("compresseddepth rvl"@) == "compresseddepth rvl"@);
    assert("compresseddepth rvl"@ != "compresseddepth png"@) by {
        assert("compresseddepth rvl"@[16] != "compresseddepth png"@[16]);
    }
}

} // verus!
