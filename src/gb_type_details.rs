use vstd::prelude::*;

use crate::timeseries::{lemma_texts_push, texts};

verus! {

/// The label of a code that the table does not hold.
pub const MISSING_APP_INFO: &'static str = "Missing app info";

/// The description of a code that the table does not hold.
pub const MISSING_DESCRIPTION: &'static str = "Missing description";

/// One code of the table: within `scope` (an XML type name, empty for a
/// simple type) and `field`, the integer `code` has a short label and a
/// description.
pub struct CodeEntry {
    pub scope: String,
    pub field: String,
    pub code: i32,
    pub app_info: String,
    pub description: String,
}

/// The table of enumerated codes and their human-readable names.
pub struct CodeLookup {
    pub entries: Vec<CodeEntry>,
}

/// The label and the description of one code.
pub struct GreenButtonFieldMetadata {
    pub app_info: String,
    pub description: String,
}

/// The first entry of `entries` at or after `from` for `(scope, field, code)`.
pub open spec fn find_code(
    entries: Seq<CodeEntry>,
    scope: Seq<char>,
    field: Seq<char>,
    code: i32,
    from: int,
) -> Option<int>
    decreases entries.len() - from,
{
    if from < 0 || from >= entries.len() {
        None
    } else if entries[from].scope@ == scope && entries[from].field@ == field
        && entries[from].code == code {
        Some(from)
    } else {
        find_code(entries, scope, field, code, from + 1)
    }
}

/// The label of `code` in the table: that of its first entry, else the
/// "Missing app info" sentinel.
pub open spec fn code_label(
    entries: Seq<CodeEntry>,
    scope: Seq<char>,
    field: Seq<char>,
    code: i32,
) -> Seq<char> {
    match find_code(entries, scope, field, code, 0) {
        Some(i) => entries[i].app_info@,
        None => MISSING_APP_INFO@,
    }
}

/// The description of `code` in the table: that of its first entry, else
/// the "Missing description" sentinel.
pub open spec fn code_description(
    entries: Seq<CodeEntry>,
    scope: Seq<char>,
    field: Seq<char>,
    code: i32,
) -> Seq<char> {
    match find_code(entries, scope, field, code, 0) {
        Some(i) => entries[i].description@,
        None => MISSING_DESCRIPTION@,
    }
}

/// The labels of a column of codes.
pub open spec fn code_labels(
    entries: Seq<CodeEntry>,
    scope: Seq<char>,
    field: Seq<char>,
    codes: Seq<i32>,
) -> Seq<Seq<char>> {
    Seq::new(codes.len(), |i: int| code_label(entries, scope, field, codes[i]))
}

impl CodeLookup {
    /// The empty table, under which every code is missing.
    pub fn new() -> (r: CodeLookup)
        ensures
            r.entries@.len() == 0,
    {
        CodeLookup { entries: Vec::new() }
    }

    /// Adds a code after those already held; an earlier entry for the same
    /// code keeps precedence.
    pub fn insert(&mut self, scope: String, field: String, code: i32, app_info: String, description: String)
        ensures
            final(self).entries@ == old(self).entries@.push(
                CodeEntry { scope, field, code, app_info, description },
            ),
    {
        self.entries.push(CodeEntry { scope, field, code, app_info, description });
    }

    /// The index of the first entry for `(scope, field, code)`.
    fn position(&self, scope: &String, field: &String, code: i32) -> (r: Option<usize>)
        ensures
            r matches Some(i) ==> i < self.entries@.len() && find_code(self.entries@, scope@, field@, code, 0) == Some(i as int),
            r is None ==> find_code(self.entries@, scope@, field@, code, 0) is None,
    {
        let mut i: usize = 0;
        while i < self.entries.len()
            invariant
                i <= self.entries@.len(),
                find_code(self.entries@, scope@, field@, code, 0) == find_code(
                    self.entries@,
                    scope@,
                    field@,
                    code,
                    i as int,
                ),
            decreases self.entries@.len() - i,
        {
            let e = &self.entries[i];
            if e.code == code && e.scope == *scope && e.field == *field {
                return Some(i);
            }
            i = i + 1;
        }
        None
    }
}

/// The label and the description of `value` for `field` of `xml_type`;
/// the sentinels "Missing app info" and "Missing description" where the
/// table does not hold it.
pub fn get_gb_type_details(
    lookup: &CodeLookup,
    xml_type: &str,
    field: &str,
    value: i32,
) -> (r: GreenButtonFieldMetadata)
    ensures
        r.app_info@ == code_label(lookup.entries@, xml_type@, field@, value),
        r.description@ == code_description(lookup.entries@, xml_type@, field@, value),
{
    let scope = xml_type.to_owned();
    let field = field.to_owned();
    match lookup.position(&scope, &field, value) {
        Some(i) => GreenButtonFieldMetadata {
            app_info: lookup.entries[i].app_info.clone(),
            description: lookup.entries[i].description.clone(),
        },
        None => GreenButtonFieldMetadata {
            app_info: MISSING_APP_INFO.to_owned(),
            description: MISSING_DESCRIPTION.to_owned(),
        },
    }
}

/// The label of each code of `values`, in order.
pub fn enums_to_strings(lookup: &CodeLookup, scope: &str, field: &str, values: &[i32]) -> (r: Vec<
    String,
>)
    ensures
        texts(r@) == code_labels(lookup.entries@, scope@, field@, values@),
{
    let mut r: Vec<String> = Vec::new();
    let mut i: usize = 0;
    while i < values.len()
        invariant
            i <= values@.len(),
            texts(r@) =~= code_labels(lookup.entries@, scope@, field@, values@.take(i as int)),
        decreases values@.len() - i,
    {
        let label = get_gb_type_details(lookup, scope, field, values[i]).app_info;
        proof {
            lemma_texts_push(r@, label);
        }
        r.push(label);
        i = i + 1;
        assert(texts(r@) =~= code_labels(lookup.entries@, scope@, field@, values@.take(i as int)));
    }
    assert(values@.take(i as int) =~= values@);
    r
}

} // verus!
