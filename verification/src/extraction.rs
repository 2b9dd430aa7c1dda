//! The records that source scanning produces: imports with rename
//! support, recognized client types, client constructions and method
//! calls.

use vstd::prelude::*;
use crate::arguments::views_of_strings;

verus! {

/// Where something was found in a source file.
#[derive(Debug, Clone, PartialEq, Eq)]
pub struct Location {
    /// The scanned file.
    pub file_path: String,
    /// The line of the find.
    pub line: usize,
    /// The column of the find.
    pub column: usize,
}

/// One import, with rename support.
#[derive(Debug, Clone)]
pub struct ImportInfo {
    /// The name in the SDK.
    pub original_name: String,
    /// The import statement's text.
    pub statement: String,
    /// The local name used in the code.
    pub local_name: String,
    /// Whether the import was renamed.
    pub is_renamed: bool,
    /// Where the import stands.
    pub location: Location,
}

impl ImportInfo {
    /// An import record; it is renamed when the local name differs
    /// from the original one.
    pub fn new(
        original_name: String,
        local_name: String,
        statement: &str,
        location: Location,
    ) -> (r: ImportInfo)
        ensures
            r.original_name@ == original_name@,
            r.local_name@ == local_name@,
            r.statement@ == statement@,
            r.is_renamed == (original_name@ != local_name@),
            r.location == location,
    {
        let is_renamed = !crate::text::str_eq(original_name.as_str(), local_name.as_str());
        ImportInfo {
            original_name,
            statement: statement.to_owned(),
            local_name,
            is_renamed,
            location,
        }
    }
}

/// The imports seen from one SDK sublibrary, with a name-mapping table
/// from local to original names.
#[derive(Debug, Clone)]
pub struct SublibraryInfo {
    /// The sublibrary's name.
    pub sublibrary: String,
    /// The imported items, in order of appearance.
    pub imports: Vec<ImportInfo>,
    /// Local name to original name, in order of addition.
    pub name_mappings: Vec<(String, String)>,
}

impl SublibraryInfo {
    /// An empty record for one sublibrary.
    pub fn new(sublibrary: String) -> (r: SublibraryInfo)
        ensures
            r.sublibrary@ == sublibrary@,
            r.imports@.len() == 0,
            r.name_mappings@.len() == 0,
    {
        SublibraryInfo { sublibrary, imports: Vec::new(), name_mappings: Vec::new() }
    }

    /// Adds an import and its name mapping.
    pub fn add_import(&mut self, import_info: ImportInfo)
        ensures
            final(self).sublibrary == old(self).sublibrary,
            final(self).imports@ == old(self).imports@.push(import_info),
            final(self).name_mappings@.len() == old(self).name_mappings@.len() + 1,
            final(self).name_mappings@.subrange(0, old(self).name_mappings@.len() as int)
                == old(self).name_mappings@,
            final(self).name_mappings@.last().0@ == import_info.local_name@,
            final(self).name_mappings@.last().1@ == import_info.original_name@,
    {
        let pair = (import_info.local_name.clone(), import_info.original_name.clone());
        self.name_mappings.push(pair);
        proof {
            assert(self.name_mappings@.subrange(0, old(self).name_mappings@.len() as int)
                =~= old(self).name_mappings@);
        }
        self.imports.push(import_info);
    }
}

/// A recognized client construction.
#[derive(Debug, Clone)]
pub struct ClientInstantiation {
    /// The variable the client is bound to.
    pub variable: String,
    /// The local client type name.
    pub client_type: String,
    /// The original client type name.
    pub original_client_type: String,
    /// The SDK sublibrary the type comes from.
    pub sublibrary: String,
    /// The constructor arguments, by name.
    pub arguments: Vec<(String, String)>,
    /// The line of the construction.
    pub line: usize,
}

/// The client types that imports made valid.
#[derive(Debug, Clone)]
pub struct ValidClientTypes {
    /// The valid local client type names.
    pub client_types: Vec<String>,
    /// Local name to original name.
    pub name_mappings: Vec<(String, String)>,
    /// Local name to sublibrary.
    pub sublibrary_mappings: Vec<(String, String)>,
}

impl ValidClientTypes {
    /// The collection from its parts.
    pub fn new(
        client_types: Vec<String>,
        name_mappings: Vec<(String, String)>,
        sublibrary_mappings: Vec<(String, String)>,
    ) -> (r: ValidClientTypes)
        ensures
            views_of_strings(r.client_types@) == views_of_strings(client_types@),
            r.name_mappings@ == name_mappings@,
            r.sublibrary_mappings@ == sublibrary_mappings@,
    {
        ValidClientTypes { client_types, name_mappings, sublibrary_mappings }
    }

    /// No client type is known.
    pub fn is_empty(&self) -> (r: bool)
        ensures
            r == (self.client_types@.len() == 0),
    {
        self.client_types.len() == 0
    }
}

/// A recognized method call on a client variable.
#[derive(Debug, Clone)]
pub struct MethodCall {
    /// The client variable the call goes through.
    pub client_variable: String,
    /// The local client type name.
    pub client_type: String,
    /// The original client type name.
    pub original_client_type: String,
    /// The client's sublibrary.
    pub client_sublibrary: String,
    /// The called method's name.
    pub method_name: String,
    /// The call arguments, by name.
    pub arguments: Vec<(String, String)>,
    /// The matched expression's text.
    pub expr: String,
    /// Where the call stands.
    pub location: Location,
}

/// The combined results of one scan.
#[derive(Debug, Clone)]
pub struct JavaScriptScanResults {
    /// Import declarations found.
    pub imports: Vec<SublibraryInfo>,
    /// Require declarations found.
    pub requires: Vec<SublibraryInfo>,
    /// Client constructions found.
    pub client_instantiations: Vec<ClientInstantiation>,
    /// Method calls found.
    pub method_calls: Vec<MethodCall>,
}

impl JavaScriptScanResults {
    /// Empty scan results.
    pub fn new() -> (r: JavaScriptScanResults)
        ensures
            r.imports@.len() == 0,
            r.requires@.len() == 0,
            r.client_instantiations@.len() == 0,
            r.method_calls@.len() == 0,
    {
        JavaScriptScanResults {
            imports: Vec::new(),
            requires: Vec::new(),
            client_instantiations: Vec::new(),
            method_calls: Vec::new(),
        }
    }
}

impl Default for JavaScriptScanResults {
    /// The same empty results as `new`.
    fn default() -> (r: JavaScriptScanResults)
        ensures
            r.imports@.len() == 0,
            r.requires@.len() == 0,
            r.client_instantiations@.len() == 0,
            r.method_calls@.len() == 0,
    {
        JavaScriptScanResults::new()
    }
}

} // verus!
