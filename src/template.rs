//! Rendering a path template against a file's variables.
use vstd::prelude::*;

use crate::error::PairError;
use crate::vars::{file_variables, opt_view, variables_spec, PairContext, VarMap};

verus! {

/// Why the formatter refused a template.
pub enum TemplateFault {
    /// The braces of the template are malformed.
    Malformed(String),
    /// A placeholder names a variable that the mapping lacks.
    UnknownKey(String),
    /// A placeholder asks for a format that text cannot take.
    BadFormat(String),
}

/// What `strfmt` makes of a template and a mapping, or `None` when it refuses.
pub uninterp spec fn strfmt_output(template: Seq<char>, vars: Map<Seq<char>, Seq<char>>) -> Option<Seq<char>>;

/// A template without braces holds no placeholder.
pub open spec fn brace_free(t: Seq<char>) -> bool {
    !t.contains('{') && !t.contains('}')
}

/// Index of the first `c` in `s`, or -1.
pub open spec fn first_index_of(s: Seq<char>, c: char) -> int
    decreases s.len(),
{
    if s.len() == 0 {
        -1
    } else if s[0] == c {
        0
    } else {
        let r = first_index_of(s.subrange(1, s.len() as int), c);
        if r < 0 {
            -1
        } else {
            r + 1
        }
    }
}

/// A placeholder name read as a plain key: not empty, with no brace and no
/// colon (a colon starts a format specification).
pub open spec fn plain_key(k: Seq<char>) -> bool {
    k.len() > 0 && !k.contains('{') && !k.contains('}') && !k.contains(':')
}

/// Plain substitution, where the template is brace-free text and `{name}`
/// placeholders with plain keys: `Ok` of the filled text, `Err` of the first
/// name the mapping lacks, or `None` for any other template.
pub open spec fn plain_fill(t: Seq<char>, vars: Map<Seq<char>, Seq<char>>) -> Option<Result<Seq<char>, Seq<char>>>
    decreases t.len(),
{
    if brace_free(t) {
        Some(Ok(t))
    } else {
        let i = first_index_of(t, '{');
        if i < 0 || i >= t.len() {
            None
        } else {
            let pre = t.subrange(0, i);
            let rest = t.subrange(i + 1, t.len() as int);
            let j = first_index_of(rest, '}');
            if pre.contains('}') || j < 0 || j >= rest.len() {
                None
            } else {
                let k = rest.subrange(0, j);
                if !plain_key(k) {
                    None
                } else if !vars.contains_key(k) {
                    Some(Err(k))
                } else {
                    match plain_fill(rest.subrange(j + 1, rest.len() as int), vars) {
                        Some(Ok(s)) => Some(Ok(pre + vars[k] + s)),
                        other => other,
                    }
                }
            }
        }
    }
}

/// Relies on `strfmt::strfmt` over a `HashMap<String, String>`: its result
/// depends on the template and the mapping alone; brace-free text is copied
/// as it is and a `{name}` placeholder with a plain key is replaced by the
/// value, or fails with `KeyError("Invalid key: name")` when the mapping
/// lacks it.
#[verifier::external_body]
fn strfmt_render(template: &str, vars: &VarMap) -> (r: Result<String, TemplateFault>)
    ensures
        r is Ok <==> strfmt_output(template@, vars@) is Some,
        r matches Ok(s) ==> Some(s@) == strfmt_output(template@, vars@),
        r matches Ok(s) ==> (brace_free(template@) ==> s@ == template@),
        brace_free(template@) ==> r is Ok,
        r matches Ok(x) ==> (plain_fill(template@, vars@) matches Some(Ok(s)) ==> x@ == s),
        plain_fill(template@, vars@) matches Some(Ok(s)) ==> r is Ok,
        r matches Err(f) ==> (plain_fill(template@, vars@) matches Some(Err(k)) ==> (f matches TemplateFault::UnknownKey(m) && m@ == "Invalid key: "@ + k)),
        plain_fill(template@, vars@) matches Some(Err(k)) ==> r is Err,
{
    let map: std::collections::HashMap<String, String> = vars.entries.iter().cloned().collect();
    strfmt::strfmt(template, &map).map_err(|e| match e {
        strfmt::FmtError::Invalid(m) => TemplateFault::Malformed(m),
        strfmt::FmtError::KeyError(m) => TemplateFault::UnknownKey(m),
        strfmt::FmtError::TypeError(m) => TemplateFault::BadFormat(m),
    })
}

/// `template` with each `{name}` replaced by the value of `name` in `vars`.
pub fn render(template: &str, vars: &VarMap) -> (r: Result<String, PairError>)
    ensures
        r is Ok <==> strfmt_output(template@, vars@) is Some,
        r matches Ok(s) ==> Some(s@) == strfmt_output(template@, vars@),
        r matches Ok(s) ==> (brace_free(template@) ==> s@ == template@),
        brace_free(template@) ==> r is Ok,
        plain_fill(template@, vars@) matches Some(Ok(s)) ==> (r matches Ok(x) && x@ == s),
        plain_fill(template@, vars@) matches Some(Err(k)) ==> (r matches Err(PairError::UnknownVariable(m)) && m@ == "Invalid key: "@ + k),
        r matches Err(e) ==> e is UnknownVariable || e is InvalidInput,
{
    match strfmt_render(template, vars) {
        Ok(s) => Ok(s),
        Err(TemplateFault::UnknownKey(m)) => Err(PairError::UnknownVariable(m)),
        Err(TemplateFault::Malformed(m)) => Err(PairError::InvalidInput(m)),
        Err(TemplateFault::BadFormat(m)) => Err(PairError::InvalidInput(m)),
    }
}

/// The path that `template` gives for the file at `path`, or why there is none.
pub fn expected_path(path: &str, ctx: &PairContext, template: &str, filename_regex: &Option<String>) -> (r: Result<String, PairError>)
    ensures
        variables_spec(path@, ctx.cwd@, ctx.from@, ctx.to@, opt_view(*filename_regex)) is None ==> (r matches Err(e) && (e is MissingPathComponent || e is InvalidInput || e is FilenameNotMatched)),
        variables_spec(path@, ctx.cwd@, ctx.from@, ctx.to@, opt_view(*filename_regex)) matches Some(m) ==> {
            &&& r is Ok <==> strfmt_output(template@, m) is Some
            &&& r is Ok ==> Some(r->Ok_0@) == strfmt_output(template@, m)
            &&& plain_fill(template@, m) matches Some(Ok(s)) ==> (r matches Ok(x) && x@ == s)
            &&& plain_fill(template@, m) matches Some(Err(k)) ==> (r matches Err(PairError::UnknownVariable(msg)) && msg@ == "Invalid key: "@ + k)
        },
{
    match file_variables(path, ctx, filename_regex) {
        Ok(vars) => render(template, &vars),
        Err(e) => Err(e),
    }
}

} // verus!
