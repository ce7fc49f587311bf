//! The final resource description: placeholder substitution over the bundle
//! template, with an exact count of expected occurrences.

use vstd::prelude::*;
use crate::error::BuildError;
use crate::text;

verus! {

/// How many occurrences of `from` stand in `s`: one less than the number of
/// parts it splits into.
pub open spec fn occurrences(s: Seq<char>, from: Seq<char>) -> int {
    text::split_on(s, from).len() - 1
}

/// Replaces `from` by `to` exactly `count` times: any other number of
/// occurrences is a data error and the text is left alone.
pub fn replace_exactly(s: &str, from: &str, to: &str, count: usize) -> (r: Result<
    String,
    BuildError,
>)
    requires
        from@.len() >= 1,
    ensures
        match r {
            Ok(out) => occurrences(s@, from@) == count && out@ == text::replace_all(
                s@,
                from@,
                to@,
            ),
            Err(e) => occurrences(s@, from@) != count && e is Data,
        },
{
    let chars = text::chars_of(s);
    let pat = text::chars_of(from);
    let rep = text::chars_of(to);
    let parts = text::split_on_chars(&chars, &pat);
    proof {
        assert(parts@.map_values(|p: Vec<char>| p@).len() == parts@.len());
    }
    if parts.len() - 1 != count {
        let mut m = String::new();
        m.append("expected a different number of occurrences of '");
        m.append(from);
        m.append("'");
        return Err(BuildError::Data(m));
    }
    let joined = text::join_chars(&parts, &rep);
    Ok(text::string_from_chars(&joined))
}

/// Whether the bundle template carries each placeholder exactly as often as
/// expected: one templates placeholder, then one icons placeholder, then
/// two prefix placeholders, counted over the successively substituted text.
pub open spec fn placeholders_ok(
    template: Seq<char>,
    templates_xml: Seq<char>,
    icons_xml: Seq<char>,
) -> bool {
    &&& occurrences(template, "@APP_TEMPLATES@"@) == 1
    &&& occurrences(
        text::replace_all(template, "@APP_TEMPLATES@"@, templates_xml),
        "@APP_ICONS@"@,
    ) == 1
    &&& occurrences(
        text::replace_all(
            text::replace_all(template, "@APP_TEMPLATES@"@, templates_xml),
            "@APP_ICONS@"@,
            icons_xml,
        ),
        "@APP_PREFIX@"@,
    ) == 2
}

/// Builds the final resource description from the bundle template: the
/// template list, the icon list and, twice, the application prefix are
/// substituted; any other placeholder count is a data error.
pub fn build_final_resources_xml(
    template: &str,
    templates_xml: &str,
    icons_xml: &str,
    app_prefix: &str,
) -> (r: Result<String, BuildError>)
    ensures
        r is Ok <==> placeholders_ok(template@, templates_xml@, icons_xml@),
        r is Ok ==> (r->Ok_0)@ == text::replace_all(
            text::replace_all(
                text::replace_all(template@, "@APP_TEMPLATES@"@, templates_xml@),
                "@APP_ICONS@"@,
                icons_xml@,
            ),
            "@APP_PREFIX@"@,
            app_prefix@,
        ),
        r is Err ==> r->Err_0 is Data,
{
    proof {
        reveal_strlit("@APP_TEMPLATES@");
        reveal_strlit("@APP_ICONS@");
        reveal_strlit("@APP_PREFIX@");
    }
    let with_templates = match replace_exactly(template, "@APP_TEMPLATES@", templates_xml, 1) {
        Ok(t) => t,
        Err(e) => {
            return Err(e);
        },
    };
    let with_icons = match replace_exactly(with_templates.as_str(), "@APP_ICONS@", icons_xml, 1) {
        Ok(t) => t,
        Err(e) => {
            return Err(e);
        },
    };
    match replace_exactly(with_icons.as_str(), "@APP_PREFIX@", app_prefix, 2) {
        Ok(t) => Ok(t),
        Err(e) => Err(e),
    }
}

} // verus!
