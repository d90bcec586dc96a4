use crate::errors::Error;
use crate::models::Config;
use vstd::prelude::*;
use vstd::utf8::*;

verus! {

/// What `handlebars` renders `template` into with the string parameters
/// `config`, when it renders it.
pub uninterp spec fn handlebars_render(template: Seq<char>, config: Map<Seq<char>, Seq<char>>) -> Option<Seq<char>>;

/// A character that may stand between a tag's `{{` and its `>`: whitespace,
/// the whitespace-control `~`, or the block `#`.
pub open spec fn is_tag_lead(c: char) -> bool {
    c == ' ' || c == '\t' || c == '\n' || c == '\r' || c == '~' || c == '#'
}

/// Whether a tag that includes a partial may start at `i` of `t`: `{{`,
/// then only whitespace, `~` and `#`, then `>` at `j` (as in `{{> name}}`,
/// `{{~> name}}` and `{{#> name}}`).
pub open spec fn opens_partial(t: Seq<char>, i: int, j: int) -> bool {
    &&& 0 <= i
    &&& i + 2 <= j < t.len()
    &&& t[i] == '{' && t[i + 1] == '{'
    &&& t[j] == '>'
    &&& forall|k: int| i + 2 <= k < j ==> is_tag_lead(t[k])
}

/// Whether the template includes no partial. A template rendered from a
/// string has no name, so handlebars cannot stop an inline partial that
/// includes itself, or two that include each other: they recurse until
/// the stack overflows. Without partial includes there is no such
/// recursion.
pub open spec fn includes_no_partial(t: Seq<char>) -> bool {
    forall|i: int, j: int| !opens_partial(t, i, j)
}

/// `Handlebars::new().render_template(template, config)`: renders the
/// template with the parameters, handed over as a map from name to text.
/// A template that does not parse, or does not render with these
/// parameters, comes back as an `Err`, here `None`. Templates that include
/// partials are left out, as they can recurse without end. The renderer's
/// `unreachable!` arms match on grammar rules and path kinds that its own
/// parser does not produce; that no template reaches them, and that the
/// parser's recursion on nested blocks stays within the stack, is taken
/// from the source, not shown here.
#[verifier::external_body]
fn render_template(template: &str, config: &Config) -> (r: Option<String>)
    requires
        includes_no_partial(template@),
    ensures
        r is Some <==> handlebars_render(template@, config@) is Some,
        r matches Some(s) ==> s@ == handlebars_render(template@, config@).unwrap(),
{
    let data: std::collections::BTreeMap<&str, &str> = config.entries().iter().map(|(k, v)| (k.as_str(), v.as_str())).collect();
    handlebars::Handlebars::new().render_template(template, &data).ok()
}

/// A request packet made from a template: the UTF-8 bytes of the template
/// rendered with `config`. The template includes no partial (which could
/// make the renderer recurse without end).
pub fn make_request_packet(template: &str, config: &Config) -> (r: Result<Vec<u8>, Error>)
    requires
        includes_no_partial(template@),
    ensures
        match handlebars_render(template@, config@) {
            Some(text) => r matches Ok(bytes) && bytes@ == encode_utf8(text),
            None => r == Err::<Vec<u8>, Error>(Error::DataParseError),
        },
{
    match render_template(template, config) {
        Some(s) => {
            let b = s.as_str().as_bytes();
            let mut out: Vec<u8> = Vec::new();
            let mut i: usize = 0;
            while i < b.len()
                invariant
                    0 <= i <= b@.len(),
                    out@ == b@.take(i as int),
                decreases b.len() - i,
            {
                out.push(b[i]);
                assert(b@.take(i + 1) =~= b@.take(i as int).push(b@[i as int]));
                i = i + 1;
            }
            assert(b@.take(b@.len() as int) =~= b@);
            Ok(out)
        }
        None => Err(Error::DataParseError),
    }
}

} // verus!
