use vstd::prelude::*;

verus! {

/// Conversion settings: optional input and output paths, page geometry in
/// hundredths of a millimetre, the base font size in points, and the
/// feature switches.  Defaults approximate a standard A-series page with a
/// 20mm margin and a 12pt base font.
#[derive(Clone)]
pub struct Config {
    pub input_file: Option<String>,
    pub output_file: Option<String>,
    pub page_width: i64,
    pub page_height: i64,
    pub margin: i64,
    pub font_size: i64,
    pub enable_gfm: bool,
    pub enable_syntax_highlighting: bool,
    pub enable_math: bool,
}

impl Config {
    /// The default settings.
    pub open spec fn spec_default() -> Config {
        Config {
            input_file: None,
            output_file: None,
            page_width: 21000,
            page_height: 29700,
            margin: 2000,
            font_size: 12,
            enable_gfm: true,
            enable_syntax_highlighting: true,
            enable_math: false,
        }
    }

    pub fn new() -> (r: Config)
        ensures
            r == Config::spec_default(),
    {
        Config {
            input_file: None,
            output_file: None,
            page_width: 21000,
            page_height: 29700,
            margin: 2000,
            font_size: 12,
            enable_gfm: true,
            enable_syntax_highlighting: true,
            enable_math: false,
        }
    }

    pub fn with_input_file(self, path: String) -> (r: Config)
        ensures
            r == (Config { input_file: Some(path), ..self }),
    {
        Config { input_file: Some(path), ..self }
    }

    pub fn with_output_file(self, path: String) -> (r: Config)
        ensures
            r == (Config { output_file: Some(path), ..self }),
    {
        Config { output_file: Some(path), ..self }
    }

    pub fn with_page_size(self, width: i64, height: i64) -> (r: Config)
        ensures
            r == (Config { page_width: width, page_height: height, ..self }),
    {
        Config { page_width: width, page_height: height, ..self }
    }

    pub fn with_margin(self, margin: i64) -> (r: Config)
        ensures
            r == (Config { margin, ..self }),
    {
        Config { margin, ..self }
    }

    pub fn with_font_size(self, size: i64) -> (r: Config)
        ensures
            r == (Config { font_size: size, ..self }),
    {
        Config { font_size: size, ..self }
    }

    pub fn with_gfm(self, enable: bool) -> (r: Config)
        ensures
            r == (Config { enable_gfm: enable, ..self }),
    {
        Config { enable_gfm: enable, ..self }
    }

    pub fn with_syntax_highlighting(self, enable: bool) -> (r: Config)
        ensures
            r == (Config { enable_syntax_highlighting: enable, ..self }),
    {
        Config { enable_syntax_highlighting: enable, ..self }
    }

    pub fn with_math(self, enable: bool) -> (r: Config)
        ensures
            r == (Config { enable_math: enable, ..self }),
    {
        Config { enable_math: enable, ..self }
    }
}

impl Default for Config {
    fn default() -> (r: Config)
        ensures
            r == Config::spec_default(),
    {
        Config::new()
    }
}

} // verus!
