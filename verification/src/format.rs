//! Pixel formats that the renderer accepts, and how client buffer formats
//! are converted to them.

use vstd::prelude::*;
use crate::errors::{BlitzSmithayError, FormatConversionError};
use crate::routing::strings_view;
use crate::string_map::StringMap;
use crate::text::str_eq;

verus! {

/// The formats that a new converter supports, in order.
pub open spec fn initial_formats() -> Seq<Seq<char>> {
    seq!["ARGB8888"@, "XRGB8888"@, "RGBA8888"@, "BGRA8888"@]
}

/// The format that a client buffer in format `src` is converted to, if
/// any: the 32-bit formats with red first in memory order to the RGBA
/// layout, the one with blue first to the BGRA layout, and 16-bit RGB
/// kept as it is.
pub open spec fn converted_format(src: Seq<char>) -> Option<Seq<char>> {
    if src == "ARGB8888"@ || src == "XRGB8888"@ {
        Some("RGBA8888"@)
    } else if src == "ABGR8888"@ {
        Some("BGRA8888"@)
    } else if src == "RGB565"@ {
        Some("RGB565"@)
    } else {
        None
    }
}

/// Whether no format occurs twice.
pub open spec fn formats_distinct(s: Seq<Seq<char>>) -> bool {
    forall|i: int, j: int| 0 <= i < j < s.len() ==> s[i] != s[j]
}

/// The list of formats after asking for support of `format`.
pub open spec fn with_format(s: Seq<Seq<char>>, format: Seq<char>) -> Seq<Seq<char>> {
    if s.contains(format) { s } else { s.push(format) }
}

/// Converts client buffer formats to formats the renderer can sample.
#[derive(Debug)]
pub struct FormatConverter {
    supported_formats: Vec<String>,
    conversion_cache: StringMap,
}

impl FormatConverter {
    #[verifier::type_invariant]
    closed spec fn inv(self) -> bool {
        formats_distinct(strings_view(self.supported_formats@))
    }

    /// The supported formats, in the order they were added.
    pub closed spec fn formats(&self) -> Seq<Seq<char>> {
        strings_view(self.supported_formats@)
    }

    /// A converter that supports the four common 32-bit formats.
    pub fn new() -> (res: Result<Self, BlitzSmithayError>)
        ensures
            res matches Ok(c) && c.formats() == initial_formats(),
    {
        let mut supported_formats: Vec<String> = Vec::new();
        supported_formats.push(String::from_str("ARGB8888"));
        supported_formats.push(String::from_str("XRGB8888"));
        supported_formats.push(String::from_str("RGBA8888"));
        supported_formats.push(String::from_str("BGRA8888"));
        proof {
            reveal_strlit("ARGB8888");
            reveal_strlit("XRGB8888");
            reveal_strlit("RGBA8888");
            reveal_strlit("BGRA8888");
            assert(strings_view(supported_formats@) =~= initial_formats());
            let f = initial_formats();
            assert(f[0][0] == 'A' && f[1][0] == 'X' && f[2][0] == 'R' && f[3][0] == 'B');
            assert(formats_distinct(f)) by {
                assert forall|i: int, j: int| 0 <= i < j < f.len() implies f[i] != f[j] by {
                    assert(f[i][0] != f[j][0]);
                }
            }
        }
        Ok(FormatConverter { supported_formats, conversion_cache: StringMap::new() })
    }

    /// The supported formats, in the order they were added.
    pub fn supported_formats(&self) -> (v: &Vec<String>)
        ensures
            strings_view(v@) == self.formats(),
    {
        &self.supported_formats
    }

    /// The format that a buffer in `src_format` is converted to; the target
    /// format does not enter into it.
    pub fn convert_format(&mut self, src_format: &str, target_format: &str) -> (res: Result<String, FormatConversionError>)
        ensures
            final(self).formats() == old(self).formats(),
            match converted_format(src_format@) {
                Some(f) => res matches Ok(s) && s@ == f,
                None => res matches Err(FormatConversionError::UnsupportedSourceFormat(s)) && s@ == src_format@,
            },
    {
        if str_eq(src_format, "ARGB8888") {
            Ok(String::from_str("RGBA8888"))
        } else if str_eq(src_format, "XRGB8888") {
            Ok(String::from_str("RGBA8888"))
        } else if str_eq(src_format, "ABGR8888") {
            Ok(String::from_str("BGRA8888"))
        } else if str_eq(src_format, "RGB565") {
            Ok(String::from_str("RGB565"))
        } else {
            Err(FormatConversionError::UnsupportedSourceFormat(String::from_str(src_format)))
        }
    }

    /// Adds `format` to the supported formats unless it is already there.
    pub fn add_format_support(&mut self, format: String)
        ensures
            final(self).formats() == with_format(old(self).formats(), format@),
    {
        proof {
            use_type_invariant(&*self);
        }
        let n = self.supported_formats.len();
        let mut i: usize = 0;
        while i < n
            invariant
                n == self.supported_formats@.len(),
                i <= n,
                forall|j: int| 0 <= j < i ==> self.supported_formats@[j]@ != format@,
            decreases n - i,
        {
            if self.supported_formats[i] == format {
                assert(strings_view(self.supported_formats@)[i as int] == format@);
                return;
            }
            i += 1;
        }
        assert(!strings_view(self.supported_formats@).contains(format@));
        let mut formats: Vec<String> = Vec::new();
        std::mem::swap(&mut formats, &mut self.supported_formats);
        let ghost before = formats@;
        formats.push(format);
        assert(strings_view(formats@) =~= strings_view(before).push(format@));
        self.supported_formats = formats;
    }
}

/// Law: asking twice for support of a format leaves the same list as asking once.
pub proof fn law_add_format_idempotent(s: Seq<Seq<char>>, f: Seq<char>)
    ensures
        with_format(with_format(s, f), f) == with_format(s, f),
{
    if !s.contains(f) {
        assert(s.push(f)[s.len() as int] == f);
    }
}

/// Law: asking for support of a format keeps the list free of repeats.
pub proof fn law_add_format_keeps_distinct(s: Seq<Seq<char>>, f: Seq<char>)
    requires
        formats_distinct(s),
    ensures
        formats_distinct(with_format(s, f)),
        with_format(s, f).contains(f),
{
    if !s.contains(f) {
        assert(s.push(f)[s.len() as int] == f);
    } else {
    }
}

/// Converts formats on the GPU; no pipeline is available.
#[derive(Debug)]
pub struct GpuFormatConverter {
    pipelines: StringMap,
}

impl GpuFormatConverter {
    #[allow(dead_code)]
    fn new() -> (res: Result<Self, BlitzSmithayError>)
        ensures
            res is Ok,
    {
        Ok(GpuFormatConverter { pipelines: StringMap::new() })
    }

    #[allow(dead_code)]
    fn convert_on_gpu(&mut self, format: &str) -> (res: Result<String, FormatConversionError>)
        ensures
            res matches Err(FormatConversionError::UnsupportedSourceFormat(s)) && s@ == format@,
    {
        Err(FormatConversionError::UnsupportedSourceFormat(String::from_str(format)))
    }
}

/// A named conversion from one format to another.
#[derive(Debug)]
pub struct ConversionPipeline {
    pub name: String,
    pub src_format: String,
    pub dst_format: String,
}

impl ConversionPipeline {
    /// Runs the pipeline; it succeeds and leaves the destination as it was.
    pub fn convert(&self, src_data: &[u8], dst_data: &mut [u8]) -> (res: Result<(), FormatConversionError>)
        ensures
            res is Ok,
            final(dst_data)@ == old(dst_data)@,
    {
        Ok(())
    }
}

} // verus!
