//! How a program logs: its options, and which filter applies.
//!
//! `RUST_LOG` wins when it is set to directives that can be read; otherwise the
//! program's own directives apply.

use crate::text;
use crate::text::{chars_of, is_white_space};
use vstd::prelude::*;

verus! {

/// A filter for spans and events, as the subscriber takes it.
#[verifier::external_type_specification]
#[verifier::external_body]
pub struct ExEnvFilter(tracing_subscriber::EnvFilter);

/// Options for setting up the subscriber.
///
/// Defaults: the `info` directive, plain (non-JSON) output, standard output, no
/// module target prefix.
#[derive(Debug)]
pub struct TracingOpts {
    /// Directives used when `RUST_LOG` is unset. Examples: `"info"`, `"warn"`,
    /// `"myapp=debug,hyper=warn"`.
    pub default_directive: String,
    /// Emit JSON-formatted spans/events instead of human-readable.
    pub json: bool,
    /// Write to stderr instead of stdout. Common in CLIs where stdout is
    /// reserved for program output.
    pub stderr: bool,
    /// Include the `target=` field (typically the module path).
    pub with_target: bool,
}

/// [`TracingOpts`], with the directives as a sequence of characters.
pub struct OptsView {
    pub default_directive: Seq<char>,
    pub json: bool,
    pub stderr: bool,
    pub with_target: bool,
}

impl View for TracingOpts {
    type V = OptsView;

    open spec fn view(&self) -> OptsView {
        OptsView {
            default_directive: self.default_directive@,
            json: self.json,
            stderr: self.stderr,
            with_target: self.with_target,
        }
    }
}

/// The defaults, but for the directives.
pub open spec fn plain_opts(default_directive: Seq<char>) -> OptsView {
    OptsView { default_directive, json: false, stderr: false, with_target: false }
}

impl Default for TracingOpts {
    fn default() -> (r: Self)
        ensures
            r@ == plain_opts("info"@),
    {
        TracingOpts {
            default_directive: "info".to_owned(),
            json: false,
            stderr: false,
            with_target: false,
        }
    }
}

impl Clone for TracingOpts {
    fn clone(&self) -> (r: Self)
        ensures
            r@ == self@,
    {
        TracingOpts {
            default_directive: self.default_directive.clone(),
            json: self.json,
            stderr: self.stderr,
            with_target: self.with_target,
        }
    }
}

impl TracingOpts {
    /// Custom directives, and otherwise the defaults.
    #[must_use]
    pub fn with_directive(default_directive: &str) -> (r: Self)
        ensures
            r@ == plain_opts(default_directive@),
    {
        TracingOpts { default_directive: default_directive.to_owned(), ..TracingOpts::default() }
    }
}

/// The directive that holds position `i` of `s` starts with white space;
/// directives are parted by commas.
pub open spec fn after_space(s: Seq<char>, i: int) -> bool
    decreases i,
{
    if i <= 0 || s[i - 1] == ',' {
        text::white_space(s[i])
    } else {
        after_space(s, i - 1)
    }
}

/// A character at which the parser of a directive may cut it.
pub open spec fn cuts(c: char) -> bool {
    c == '=' || c == '[' || c == ']' || c == '{' || c == '}'
}

/// A character before position `i` of `s`, in the same directive, is not ASCII.
pub open spec fn wide_before(s: Seq<char>, i: int) -> bool
    decreases i,
{
    if i <= 0 || s[i - 1] == ',' {
        false
    } else {
        s[i - 1] as u32 > 0x7f || wide_before(s, i - 1)
    }
}

/// A directive of `s` that starts with white space is ASCII up to its last cut.
///
/// Its cuts are counted from where the white space ends but made from where it
/// begins, so each falls before the character it is meant for; among ASCII
/// characters that is a character boundary.
pub open spec fn sliceable(s: Seq<char>) -> bool {
    forall|i: int|
        0 <= i < s.len() && cuts(s[i]) && #[trigger] after_space(s, i) ==> !wide_before(s, i)
}

/// Whether every directive that starts with white space is ASCII up to its last
/// cut.
#[must_use]
pub fn is_sliceable(directives: &str) -> (r: bool)
    ensures
        r == sliceable(directives@),
{
    let chars = chars_of(directives);
    let mut at_start: bool = true;
    let mut spaced: bool = false;
    let mut wide: bool = false;
    let mut i: usize = 0;
    while i < chars.len()
        invariant
            i <= chars@.len(),
            chars@ == directives@,
            at_start <==> i == 0 || chars@[i - 1] == ',',
            i > 0 ==> spaced == after_space(chars@, i - 1),
            !at_start ==> wide == wide_before(chars@, i as int),
            forall|k: int|
                0 <= k < i && cuts(chars@[k]) && #[trigger] after_space(chars@, k)
                    ==> !wide_before(chars@, k),
        decreases chars@.len() - i,
    {
        let c = chars[i];
        if at_start {
            spaced = is_white_space(c);
            wide = false;
        }
        assert(wide == wide_before(chars@, i as int));
        if spaced && wide && (c == '=' || c == '[' || c == ']' || c == '{' || c == '}') {
            assert(after_space(chars@, i as int));
            return false;
        }
        wide = wide || c as u32 > 0x7f;
        at_start = c == ',';
        i += 1;
    }
    true
}

/// Calls `tracing_subscriber::EnvFilter::try_new`, which reads directives as the
/// value of `RUST_LOG` is read, and is `None` for any that are not valid.
///
/// Nothing is claimed of the filter: it is opaque here. As with
/// [`filter_for`], what is not [`sliceable`] is left out.
#[verifier::external_body]
fn filter_of(value: &str) -> (r: Option<tracing_subscriber::EnvFilter>)
    requires
        sliceable(value@),
{
    tracing_subscriber::EnvFilter::try_new(value).ok()
}

/// Calls `tracing_subscriber::EnvFilter::new`.
///
/// Nothing is claimed of the filter: it is opaque here. The call walks a
/// directive without its surrounding white space but cuts it with it, so it
/// panics where such a cut falls into a character; what is not [`sliceable`] is
/// left out.
#[verifier::external_body]
fn filter_for(directives: &str) -> (r: tracing_subscriber::EnvFilter)
    requires
        sliceable(directives@),
{
    tracing_subscriber::EnvFilter::new(directives)
}

/// `filter` is what the directives `value` are read as; `None` if any of them is
/// not valid.
pub closed spec fn read_as(value: &str, filter: Option<tracing_subscriber::EnvFilter>) -> bool {
    call_ensures(filter_of, (value,), filter)
}

/// `filter` was made from `directives`.
pub closed spec fn made_from(filter: tracing_subscriber::EnvFilter, directives: &str) -> bool {
    call_ensures(filter_for, (directives,), filter)
}

/// The filter that `RUST_LOG` gave, if it gave one, or else one for
/// `default_directive`.
#[must_use]
pub fn filter_or(
    env: Option<tracing_subscriber::EnvFilter>,
    default_directive: &str,
) -> (r: tracing_subscriber::EnvFilter)
    requires
        env is None ==> sliceable(default_directive@),
    ensures
        match env {
            Some(filter) => r == filter,
            None => made_from(r, default_directive),
        },
{
    match env {
        Some(filter) => filter,
        None => filter_for(default_directive),
    }
}

/// Build the filter from `rust_log`, the value of `RUST_LOG` if it has one,
/// falling back to `default_directive`. Pure: nothing is set up.
#[must_use]
pub fn build_filter(
    rust_log: Option<&str>,
    default_directive: &str,
) -> (r: tracing_subscriber::EnvFilter)
    requires
        rust_log matches Some(value) ==> sliceable(value@),
        sliceable(default_directive@),
    ensures
        match rust_log {
            Some(value) => read_as(value, Some(r)) || (read_as(value, None) && made_from(
                r,
                default_directive,
            )),
            None => made_from(r, default_directive),
        },
{
    let env = match rust_log {
        Some(value) => filter_of(value),
        None => None,
    };
    filter_or(env, default_directive)
}

/// Directives can be cut unless one of them starts with white space and holds,
/// somewhere before a character at which it may be cut, one that is not ASCII.
pub proof fn law_what_cannot_be_cut(s: Seq<char>)
    ensures
        sliceable(s) <==> !exists|start: int, wide: int, cut: int|
            #[trigger] spoils(s, start, wide, cut),
{
    if !sliceable(s) {
        let cut = choose|i: int|
            0 <= i < s.len() && cuts(s[i]) && #[trigger] after_space(s, i) && wide_before(s, i);
        let start = lemma_start_of_directive(s, cut);
        let wide = lemma_wide_character(s, start, cut);
        assert(spoils(s, start, wide, cut));
    }
    if exists|start: int, wide: int, cut: int| #[trigger] spoils(s, start, wide, cut) {
        let (start, wide, cut) = choose|start: int, wide: int, cut: int|
            #[trigger] spoils(s, start, wide, cut);
        lemma_in_directive(s, start, cut);
        lemma_wide_is_before(s, wide, cut);
    }
}

/// From `start` a directive runs to `cut` at least, a character at which it may
/// be cut; it starts with white space, and at `wide`, before the cut, it holds a
/// character that is not ASCII.
pub open spec fn spoils(s: Seq<char>, start: int, wide: int, cut: int) -> bool {
    &&& 0 <= start <= wide < cut < s.len()
    &&& start == 0 || s[start - 1] == ','
    &&& forall|i: int| start <= i < cut ==> s[i] != ','
    &&& text::white_space(s[start])
    &&& s[wide] as u32 > 127
    &&& s[cut] == '=' || s[cut] == '[' || s[cut] == ']' || s[cut] == '{' || s[cut] == '}'
}

proof fn lemma_start_of_directive(s: Seq<char>, at: int) -> (start: int)
    requires
        0 <= at < s.len(),
    ensures
        0 <= start <= at,
        start == 0 || s[start - 1] == ',',
        forall|i: int| start <= i < at ==> s[i] != ',',
        after_space(s, at) == text::white_space(s[start]),
    decreases at,
{
    if at == 0 || s[at - 1] == ',' {
        at
    } else {
        lemma_start_of_directive(s, at - 1)
    }
}

proof fn lemma_wide_character(s: Seq<char>, start: int, at: int) -> (wide: int)
    requires
        0 <= start <= at < s.len(),
        start == 0 || s[start - 1] == ',',
        forall|i: int| start <= i < at ==> s[i] != ',',
        wide_before(s, at),
    ensures
        start <= wide < at,
        s[wide] as u32 > 127,
    decreases at,
{
    if s[at - 1] as u32 > 127 {
        at - 1
    } else {
        lemma_wide_character(s, start, at - 1)
    }
}

proof fn lemma_in_directive(s: Seq<char>, start: int, at: int)
    requires
        0 <= start <= at < s.len(),
        start == 0 || s[start - 1] == ',',
        forall|i: int| start <= i < at ==> s[i] != ',',
    ensures
        after_space(s, at) == text::white_space(s[start]),
    decreases at,
{
    if at > start {
        lemma_in_directive(s, start, at - 1);
    }
}

proof fn lemma_wide_is_before(s: Seq<char>, wide: int, at: int)
    requires
        0 <= wide < at < s.len(),
        forall|i: int| wide <= i < at ==> s[i] != ',',
        s[wide] as u32 > 127,
    ensures
        wide_before(s, at),
    decreases at,
{
    if wide < at - 1 {
        lemma_wide_is_before(s, wide, at - 1);
    }
}

/// Options hold the directives they were made with, or `info`, and ask for
/// nothing else.
pub proof fn law_options_are_plain(directive: &str, custom: TracingOpts, default: TracingOpts)
    requires
        call_ensures(TracingOpts::with_directive, (directive,), custom),
        call_ensures(TracingOpts::default, (), default),
    ensures
        custom.default_directive@ == directive@,
        default.default_directive@ == "info"@,
        forall|o: TracingOpts|
            o == custom || o == default ==> !(#[trigger] o.json) && !o.stderr && !o.with_target,
{
    assert(!custom@.json && !default@.json);
}

/// A filter is taken to come from directives only as the two calls give it.
proof fn lemma_filters_come_from_the_calls(
    directives: &str,
    read: Option<tracing_subscriber::EnvFilter>,
    made: tracing_subscriber::EnvFilter,
)
    ensures
        read_as(directives, read) == call_ensures(filter_of, (directives,), read),
        made_from(made, directives) == call_ensures(filter_for, (directives,), made),
{
}

} // verus!
