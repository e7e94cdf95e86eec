//! The validated command-line configuration.
//!
//! A `Matcher` holds either the list-formats request alone, or the input
//! path, target extension, quality and scale multiplier of one conversion.
//! Quality is validated to the range 0 to 100; the richer range up to 255
//! that a bare byte parse would admit is deliberately rejected, since no
//! encoder here gives meaning to values above 100.

use vstd::prelude::*;

use crate::scale::{parse_scale, scale_text_valid, spec_den, spec_num, Scale};
use crate::text::{is_digit, val_of};

verus! {

/// A configuration problem reported before any file is touched.
#[derive(Clone, Copy, PartialEq, Eq, Structural, Debug)]
pub enum UsageError {
    /// No input path was given and the format list was not requested.
    MissingInput,
    /// The quality is not a whole number between 0 and 100.
    InvalidQuality,
    /// The multiplier is not a positive decimal number of at most nine
    /// digits.
    InvalidMultiplier,
}

/// Valid quality text: one or more digits denoting at most 100.
pub open spec fn quality_text_valid(s: Seq<char>) -> bool {
    &&& s.len() >= 1
    &&& forall|i: int| 0 <= i < s.len() ==> is_digit(s[i])
    &&& val_of(s) <= 100
}

/// Parses an encode quality: a whole number between 0 and 100.
pub fn parse_quality(text: &str) -> (r: Option<u8>)
    ensures
        r is Some <==> quality_text_valid(text@),
        r matches Some(q) ==> q as nat == val_of(text@),
{
    let n = text.unicode_len();
    if n == 0 {
        return None;
    }
    let mut i: usize = 0;
    let mut acc: u32 = 0;
    let mut over: bool = false;
    proof {
        assert(text@.subrange(0, 0) =~= Seq::<char>::empty());
    }
    while i < n
        invariant
            n == text@.len(),
            i <= n,
            forall|q: int| 0 <= q < i ==> is_digit(text@[q]),
            over <==> val_of(text@.subrange(0, i as int)) > 100,
            !over ==> acc as nat == val_of(text@.subrange(0, i as int)) && acc <= 100,
        decreases n - i,
    {
        let c = text.get_char(i);
        if !(c >= '0' && c <= '9') {
            return None;
        }
        proof {
            assert(text@.subrange(0, i as int + 1).drop_last() =~= text@.subrange(0, i as int));
        }
        if !over {
            let d: u32 = (c as u32) - ('0' as u32);
            let nacc = acc * 10 + d;
            if nacc > 100 {
                over = true;
            } else {
                acc = nacc;
            }
        }
        i = i + 1;
    }
    proof {
        assert(text@.subrange(0, n as int) =~= text@);
    }
    if over {
        None
    } else {
        Some(acc as u8)
    }
}

/// A validated configuration: the list-formats request, or the parameters
/// of one conversion.
#[derive(Debug)]
pub struct Matcher {
    pub show_list: bool,
    pub input_file_path: Option<String>,
    pub extension: Option<String>,
    pub quality: Option<u8>,
    pub multiplier: Option<Scale>,
}

/// Whether the optional quality text is absent or valid.
pub open spec fn quality_ok(t: Option<String>) -> bool {
    match t {
        None => true,
        Some(s) => quality_text_valid(s@),
    }
}

/// The quality the optional text denotes; 100 when absent.
pub open spec fn quality_value(t: Option<String>) -> nat {
    match t {
        None => 100,
        Some(s) => val_of(s@),
    }
}

/// Whether the optional multiplier text is absent or valid.
pub open spec fn multiplier_ok(t: Option<String>) -> bool {
    match t {
        None => true,
        Some(s) => scale_text_valid(s@),
    }
}

/// The numerator the optional multiplier text denotes; 1 when absent.
pub open spec fn multiplier_num(t: Option<String>) -> nat {
    match t {
        None => 1,
        Some(s) => spec_num(s@),
    }
}

/// The denominator the optional multiplier text denotes; 1 when absent.
pub open spec fn multiplier_den(t: Option<String>) -> nat {
    match t {
        None => 1,
        Some(s) => spec_den(s@),
    }
}

/// The target extension: the given one, or `webp` when absent.
pub open spec fn extension_text(t: Option<String>) -> Seq<char> {
    match t {
        Some(e) => e@,
        None => "webp"@,
    }
}

impl Matcher {
    /// A list-formats matcher carries nothing else; a conversion matcher
    /// carries every parameter, validated.
    pub open spec fn wf(self) -> bool {
        if self.show_list {
            &&& self.input_file_path is None
            &&& self.extension is None
            &&& self.quality is None
            &&& self.multiplier is None
        } else {
            &&& self.input_file_path is Some
            &&& self.extension is Some
            &&& self.quality matches Some(q) && q <= 100
            &&& self.multiplier matches Some(m) && m.wf()
        }
    }

    /// Resolves raw command-line values into a validated configuration.
    /// The list flag short-circuits everything else; otherwise the input
    /// path is required, the extension defaults to `webp`, the quality to
    /// 100 and the multiplier to 1.
    pub fn new(
        show_list: bool,
        input: Option<String>,
        extension: Option<String>,
        quality_text: Option<String>,
        multiplier_text: Option<String>,
    ) -> (r: Result<Matcher, UsageError>)
        ensures
            r matches Ok(m) ==> m.wf() && m.show_list == show_list,
            show_list ==> (r matches Ok(m) && m.show_list),
            !show_list && input is None ==> r == Err::<Matcher, UsageError>(
                UsageError::MissingInput,
            ),
            !show_list && input is Some && !quality_ok(quality_text) ==> r == Err::<
                Matcher,
                UsageError,
            >(UsageError::InvalidQuality),
            !show_list && input is Some && quality_ok(quality_text) && !multiplier_ok(
                multiplier_text,
            ) ==> r == Err::<Matcher, UsageError>(UsageError::InvalidMultiplier),
            !show_list && input is Some && quality_ok(quality_text) && multiplier_ok(
                multiplier_text,
            ) ==> (r matches Ok(m) && {
                &&& m.input_file_path == input
                &&& m.extension matches Some(e) && e@ == extension_text(extension)
                &&& m.quality matches Some(q) && q as nat == quality_value(quality_text)
                &&& m.multiplier matches Some(sc) && sc.num as nat == multiplier_num(
                    multiplier_text,
                ) && sc.den as nat == multiplier_den(multiplier_text)
            }),
    {
        if show_list {
            return Ok(
                Matcher {
                    show_list: true,
                    input_file_path: None,
                    extension: None,
                    quality: None,
                    multiplier: None,
                },
            );
        }
        let input_path: String = match input {
            Some(p) => p,
            None => {
                return Err(UsageError::MissingInput);
            },
        };
        let quality: u8 = match &quality_text {
            None => 100u8,
            Some(t) => match parse_quality(t.as_str()) {
                Some(q) => q,
                None => {
                    return Err(UsageError::InvalidQuality);
                },
            },
        };
        let mult: Scale = match &multiplier_text {
            None => Scale::one(),
            Some(t) => match parse_scale(t.as_str()) {
                Some(s) => s,
                None => {
                    return Err(UsageError::InvalidMultiplier);
                },
            },
        };
        let ext: String = match extension {
            Some(e) => e,
            None => "webp".to_owned(),
        };
        Ok(
            Matcher {
                show_list: false,
                input_file_path: Some(input_path),
                extension: Some(ext),
                quality: Some(quality),
                multiplier: Some(mult),
            },
        )
    }

    /// Whether the format list was requested.
    pub fn show_list(&self) -> (r: bool)
        ensures
            r == self.show_list,
    {
        self.show_list
    }

    pub fn get_input_file_path(&self) -> (r: &Option<String>)
        ensures
            *r == self.input_file_path,
    {
        &self.input_file_path
    }

    pub fn get_extension(&self) -> (r: &Option<String>)
        ensures
            *r == self.extension,
    {
        &self.extension
    }

    pub fn get_quality(&self) -> (r: Option<u8>)
        ensures
            r == self.quality,
    {
        self.quality
    }

    pub fn get_multiplier(&self) -> (r: &Option<Scale>)
        ensures
            *r == self.multiplier,
    {
        &self.multiplier
    }
}

} // verus!
