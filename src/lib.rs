//! Paragraph reflow for text extracted from CJK documents, with a thin
//! front end to the OpenCC script converter.
use vstd::prelude::*;
use opencc_fmmseg::OpenCC as FmmsegOpenCC;

pub mod text;
pub mod punct_sets;
pub mod cjk_text;
pub mod reflow_helper;
pub mod reflow_laws;
pub mod pdf_extract_helper;

pub use crate::cjk_text::{is_all_ascii, is_cjk_bmp};
pub use crate::punct_sets::has_unclosed_bracket;
pub use crate::reflow_helper::{is_box_drawing_line, reflow_cjk_paragraphs};

verus! {

/// The supported conversion configurations, in order.
pub open spec fn spec_configs() -> Seq<Seq<char>> {
    seq![
        seq!['s', '2', 't'],
        seq!['t', '2', 's'],
        seq!['s', '2', 't', 'w'],
        seq!['t', 'w', '2', 's'],
        seq!['s', '2', 't', 'w', 'p'],
        seq!['t', 'w', '2', 's', 'p'],
        seq!['s', '2', 'h', 'k'],
        seq!['h', 'k', '2', 's'],
        seq!['t', '2', 't', 'w'],
        seq!['t', 'w', '2', 't'],
        seq!['t', '2', 't', 'w', 'p'],
        seq!['t', 'w', '2', 't', 'p'],
        seq!['t', '2', 'h', 'k'],
        seq!['h', 'k', '2', 't'],
        seq!['t', '2', 'j', 'p'],
        seq!['j', 'p', '2', 't']
    ]
}

pub open spec fn spec_valid_config(c: Seq<char>) -> bool {
    spec_configs().contains(c)
}

/// The configuration used when none, or an unsupported one, is given.
pub open spec fn spec_default_config() -> Seq<char> {
    seq!['s', '2', 't']
}

/// The supported conversion configurations: simplified/traditional and the
/// Taiwan, Hong Kong and Japanese variants.
pub fn config_set() -> (r: Vec<&'static str>)
    ensures
        r@.map_values(|c: &str| c@) == spec_configs(),
{
    let mut v: Vec<&'static str> = Vec::new();
    v.push("s2t");
    v.push("t2s");
    v.push("s2tw");
    v.push("tw2s");
    v.push("s2twp");
    v.push("tw2sp");
    v.push("s2hk");
    v.push("hk2s");
    v.push("t2tw");
    v.push("tw2t");
    v.push("t2twp");
    v.push("tw2tp");
    v.push("t2hk");
    v.push("hk2t");
    v.push("t2jp");
    v.push("jp2t");
    proof {
        reveal_strlit("s2t");
        assert("s2t"@ =~= seq!['s', '2', 't']);
        reveal_strlit("t2s");
        assert("t2s"@ =~= seq!['t', '2', 's']);
        reveal_strlit("s2tw");
        assert("s2tw"@ =~= seq!['s', '2', 't', 'w']);
        reveal_strlit("tw2s");
        assert("tw2s"@ =~= seq!['t', 'w', '2', 's']);
        reveal_strlit("s2twp");
        assert("s2twp"@ =~= seq!['s', '2', 't', 'w', 'p']);
        reveal_strlit("tw2sp");
        assert("tw2sp"@ =~= seq!['t', 'w', '2', 's', 'p']);
        reveal_strlit("s2hk");
        assert("s2hk"@ =~= seq!['s', '2', 'h', 'k']);
        reveal_strlit("hk2s");
        assert("hk2s"@ =~= seq!['h', 'k', '2', 's']);
        reveal_strlit("t2tw");
        assert("t2tw"@ =~= seq!['t', '2', 't', 'w']);
        reveal_strlit("tw2t");
        assert("tw2t"@ =~= seq!['t', 'w', '2', 't']);
        reveal_strlit("t2twp");
        assert("t2twp"@ =~= seq!['t', '2', 't', 'w', 'p']);
        reveal_strlit("tw2tp");
        assert("tw2tp"@ =~= seq!['t', 'w', '2', 't', 'p']);
        reveal_strlit("t2hk");
        assert("t2hk"@ =~= seq!['t', '2', 'h', 'k']);
        reveal_strlit("hk2t");
        assert("hk2t"@ =~= seq!['h', 'k', '2', 't']);
        reveal_strlit("t2jp");
        assert("t2jp"@ =~= seq!['t', '2', 'j', 'p']);
        reveal_strlit("jp2t");
        assert("jp2t"@ =~= seq!['j', 'p', '2', 't']);
        assert(v@.map_values(|c: &str| c@) =~= spec_configs());
    }
    v
}

fn default_config() -> (r: String)
    ensures
        r@ == spec_default_config(),
{
    let r = crate::text::string_of(&crate::text::char_vec("s2t"));
    proof {
        reveal_strlit("s2t");
        assert("s2t"@ =~= spec_default_config());
    }
    r
}

/// True iff `s` consists of ASCII digits only and is not empty.
pub fn is_all_ascii_digits(s: &str) -> (r: bool)
    ensures
        r == (s@.len() > 0 && forall|i: int| 0 <= i < s@.len() ==> '0' <= #[trigger] s@[i] && s@[i] <= '9'),
{
    let v = crate::text::char_vec(s);
    let mut i: usize = 0;
    while i < v.len()
        invariant
            i <= v.len(),
            v@ == s@,
            forall|j: int| 0 <= j < i ==> '0' <= #[trigger] v@[j] && v@[j] <= '9',
        decreases v.len() - i,
    {
        if !('0' <= v[i] && v[i] <= '9') {
            return false;
        }
        i += 1;
    }
    v.len() > 0
}

/// True iff `s` is non-empty, has no whitespace, and every character is CJK.
pub fn is_all_cjk(s: &str) -> (r: bool)
    ensures
        r == crate::cjk_text::spec_all_cjk(s@, false),
{
    crate::cjk_text::is_all_cjk_no_ws(s)
}

// ----- script conversion front end -----

/// The converter type of `opencc_fmmseg`, carried opaquely.
#[verifier::external_type_specification]
#[verifier::external_body]
pub struct ExFmmsegOpenCC(FmmsegOpenCC);

/// What `opencc_fmmseg::OpenCC::convert` returns for `input`, a configuration
/// name and the punctuation flag, on a converter made by
/// `opencc_fmmseg::OpenCC::new` (bundled dictionary, default flags). Every
/// converter this library holds is made that way and never altered.
pub uninterp spec fn fmmseg_converted(input: Seq<char>, config: Seq<char>, punctuation: bool) -> Seq<char>;

/// What `opencc_fmmseg::OpenCC::zho_check` returns for `input`, on a converter
/// made by `opencc_fmmseg::OpenCC::new` (bundled dictionary, default flags).
pub uninterp spec fn fmmseg_zho_code(input: Seq<char>) -> i32;

/// Relies on `opencc_fmmseg::OpenCC::new`: a converter over the bundled
/// dictionaries (it never panics).
pub assume_specification[ FmmsegOpenCC::new ]() -> FmmsegOpenCC;

/// Relies on `opencc_fmmseg::OpenCC::convert`: the converted text, a function
/// of the input, the configuration name and the punctuation flag.
pub assume_specification[ FmmsegOpenCC::convert ](
    cc: &FmmsegOpenCC,
    input: &str,
    config: &str,
    punctuation: bool,
) -> (r: String)
    ensures
        r@ == fmmseg_converted(input@, config@, punctuation),
;

/// Relies on `opencc_fmmseg::OpenCC::zho_check`: 1 for Traditional, 2 for
/// Simplified, 0 otherwise and for empty input.
pub assume_specification[ FmmsegOpenCC::zho_check ](
    cc: &FmmsegOpenCC,
    input: &str,
) -> (r: i32)
    ensures
        r == fmmseg_zho_code(input@),
        0 <= r <= 2,
        input@.len() == 0 ==> r == 0,
;

/// The message kept when an unsupported configuration is replaced by the default.
pub open spec fn spec_invalid_config_message(config: Seq<char>) -> Seq<char> {
    "Invalid config '"@ + config + "', reverted to 's2t'"@
}

/// A converter with its current configuration and the last error message.
pub struct OpenCC {
    opencc: FmmsegOpenCC,
    config: String,
    last_error: String,
}

fn chars_equal(a: &[char], b: &[char]) -> (r: bool)
    ensures
        r == (a@ == b@),
{
    if a.len() != b.len() {
        return false;
    }
    let mut i: usize = 0;
    while i < a.len()
        invariant
            i <= a.len() == b.len(),
            forall|j: int| 0 <= j < i ==> a@[j] == b@[j],
        decreases a.len() - i,
    {
        if a[i] != b[i] {
            return false;
        }
        i += 1;
    }
    assert(a@ =~= b@);
    true
}

fn invalid_config_message(config: &str) -> (r: String)
    ensures
        r@ == spec_invalid_config_message(config@),
{
    let mut m = String::new();
    crate::text::push_all(&mut m, "Invalid config '");
    crate::text::push_all(&mut m, config);
    crate::text::push_all(&mut m, "', reverted to 's2t'");
    assert(m@ =~= spec_invalid_config_message(config@));
    m
}

impl OpenCC {
    /// The current configuration name.
    pub closed spec fn spec_config(&self) -> Seq<char> {
        self.config@
    }

    /// The last error message (empty when there was none).
    pub closed spec fn spec_last_error(&self) -> Seq<char> {
        self.last_error@
    }

    /// A converter for `config`; without one, or with an unsupported one, the
    /// default `s2t`, and for an unsupported one an error message.
    pub fn new(config: Option<&str>) -> (r: OpenCC)
        ensures
            match config {
                Some(c) => if spec_valid_config(c@) {
                    r.spec_config() == c@ && r.spec_last_error().len() == 0
                } else {
                    r.spec_config() == spec_default_config() && r.spec_last_error()
                        == spec_invalid_config_message(c@)
                },
                None => r.spec_config() == spec_default_config() && r.spec_last_error().len() == 0,
            },
    {
        let opencc = FmmsegOpenCC::new();
        match config {
            Some(c) => {
                if OpenCC::is_valid_config(c) {
                    OpenCC {
                        opencc,
                        config: crate::text::string_of(&crate::text::char_vec(c)),
                        last_error: String::new(),
                    }
                } else {
                    OpenCC { opencc, config: default_config(), last_error: invalid_config_message(c) }
                }
            },
            None => OpenCC { opencc, config: default_config(), last_error: String::new() },
        }
    }

    /// `input_text` converted under the current configuration.
    pub fn convert(&self, input_text: &str, punctuation: bool) -> (r: String)
        ensures
            r@ == fmmseg_converted(input_text@, self.spec_config(), punctuation),
    {
        self.opencc.convert(input_text, self.config.as_str(), punctuation)
    }

    /// 1 for Traditional Chinese, 2 for Simplified Chinese, 0 otherwise.
    pub fn zho_check(&self, input_text: &str) -> (r: i32)
        ensures
            r == fmmseg_zho_code(input_text@),
            0 <= r <= 2,
            input_text@.len() == 0 ==> r == 0,
    {
        self.opencc.zho_check(input_text)
    }

    pub fn get_config(&self) -> (r: &str)
        ensures
            r@ == self.spec_config(),
    {
        self.config.as_str()
    }

    /// Switches to `config` and clears the error; an unsupported one falls
    /// back to `s2t` and records an error message.
    pub fn apply_config(&mut self, config: &str)
        ensures
            spec_valid_config(config@) ==> final(self).spec_config() == config@
                && final(self).spec_last_error().len() == 0,
            !spec_valid_config(config@) ==> final(self).spec_config() == spec_default_config()
                && final(self).spec_last_error() == spec_invalid_config_message(config@),
    {
        if OpenCC::is_valid_config(config) {
            self.config = crate::text::string_of(&crate::text::char_vec(config));
            self.last_error = String::new();
        } else {
            self.config = default_config();
            self.last_error = invalid_config_message(config);
        }
    }

    pub fn get_last_error(&self) -> (r: &str)
        ensures
            r@ == self.spec_last_error(),
    {
        self.last_error.as_str()
    }

    pub fn supported_configs() -> (r: Vec<&'static str>)
        ensures
            r@.map_values(|c: &str| c@) == spec_configs(),
    {
        config_set()
    }

    pub fn is_valid_config(config: &str) -> (r: bool)
        ensures
            r == spec_valid_config(config@),
    {
        let cv = crate::text::char_vec(config);
        let all = config_set();
        let ghost cs = all@.map_values(|c: &str| c@);
        let mut i: usize = 0;
        while i < all.len()
            invariant
                i <= all.len(),
                cv@ == config@,
                cs == all@.map_values(|c: &str| c@),
                cs == spec_configs(),
                forall|j: int| 0 <= j < i ==> cs[j] != config@,
            decreases all.len() - i,
        {
            let item = crate::text::char_vec(all[i]);
            if chars_equal(&item, &cv) {
                assert(cs[i as int] == config@);
                return true;
            }
            i += 1;
        }
        false
    }
}

} // verus!
