use vstd::prelude::*;

use crate::config::{
    CommonOverridableProperties, CommonOverridableView, CopyDef, CopyDefView, EBDirectories,
    EBuilderBaseConfig, EBuilderBaseView, EBuilderConfig, EBuilderConfigView, FileAssociation,
    FileAssociationView, FileSet, FileSetView, ProtocolAssociation, ProtocolAssociationView,
};
use crate::doc::{obj_lookup, DocValue, DocView};
use crate::doc::{lemma_doc_kv_views_index, lemma_doc_kv_views_len};
use crate::doc::{lemma_doc_views_index, lemma_doc_views_len};
use crate::error::Error;

verus! {

broadcast use
    vstd::string::group_string_axioms,
    lemma_doc_views_len,
    lemma_doc_views_index,
    lemma_doc_kv_views_len,
    lemma_doc_kv_views_index,
;

/// An optional string field: absent or null reads as nothing,
/// anything but a string is rejected.
pub open spec fn sp_opt_string(f: Option<DocView>) -> Option<Option<Seq<char>>> {
    match f {
        None => Some(None),
        Some(v) => match v {
            DocView::Null => Some(None),
            DocView::Str(s) => Some(Some(s)),
            _ => None,
        },
    }
}

/// Whether every element is a string value.
pub open spec fn all_strs(items: Seq<DocView>) -> bool {
    forall|i: int| 0 <= i < items.len() ==> (#[trigger] items[i]) is Str
}

/// The strings of a sequence of string values.
pub open spec fn strs_of(items: Seq<DocView>) -> Seq<Seq<char>> {
    Seq::new(items.len(), |i: int| items[i]->Str_0)
}

/// A string-list field that equally accepts nothing, one string,
/// or a list of strings.
pub open spec fn sp_mbs_strings(f: Option<DocView>) -> Option<Seq<Seq<char>>> {
    match f {
        None => Some(Seq::empty()),
        Some(v) => match v {
            DocView::Null => Some(Seq::empty()),
            DocView::Str(s) => Some(seq![s]),
            DocView::Arr(items) => if all_strs(items) {
                Some(strs_of(items))
            } else {
                None
            },
            _ => None,
        },
    }
}

/// A list of strings and nothing else.
pub open spec fn sp_strings_strict(v: DocView) -> Option<Seq<Seq<char>>> {
    match v {
        DocView::Arr(items) => if all_strs(items) {
            Some(strs_of(items))
        } else {
            None
        },
        _ => None,
    }
}

/// A scoped copy read from a mapping: `from`, `to` and a
/// single-or-list `filter`.
pub open spec fn sp_fileset(e: Seq<(Seq<char>, DocView)>) -> Option<FileSetView> {
    let from = sp_opt_string(obj_lookup(e, "from"@));
    let to = sp_opt_string(obj_lookup(e, "to"@));
    let filter = sp_mbs_strings(obj_lookup(e, "filter"@));
    if from is Some && to is Some && filter is Some {
        Some(FileSetView { from: from->0, to: to->0, filter: filter->0 })
    } else {
        None
    }
}

/// A copy declaration: a bare string is a glob, a mapping is a scope.
pub open spec fn sp_copydef(v: DocView) -> Option<CopyDefView> {
    match v {
        DocView::Str(s) => Some(CopyDefView::Simple(s)),
        DocView::Obj(e) => match sp_fileset(e) {
            Some(fs) => Some(CopyDefView::Scoped(fs)),
            None => None,
        },
        _ => None,
    }
}

/// Whether every element reads as a copy declaration.
pub open spec fn all_copydefs(items: Seq<DocView>) -> bool {
    forall|i: int| 0 <= i < items.len() ==> (#[trigger] sp_copydef(items[i])) is Some
}

/// The copy declarations of a sequence of values.
pub open spec fn copydefs_of(items: Seq<DocView>) -> Seq<CopyDefView> {
    Seq::new(items.len(), |i: int| sp_copydef(items[i])->0)
}

/// A copy-list field that equally accepts nothing, one declaration,
/// or a list of declarations.
pub open spec fn sp_mbs_copydefs(f: Option<DocView>) -> Option<Seq<CopyDefView>> {
    match f {
        None => Some(Seq::empty()),
        Some(v) => match v {
            DocView::Null => Some(Seq::empty()),
            DocView::Arr(items) => if all_copydefs(items) {
                Some(copydefs_of(items))
            } else {
                None
            },
            _ => match sp_copydef(v) {
                Some(cd) => Some(seq![cd]),
                None => None,
            },
        },
    }
}

/// A protocol association: an optional name and a required scheme list.
pub open spec fn sp_protocol(v: DocView) -> Option<ProtocolAssociationView> {
    match v {
        DocView::Obj(e) => {
            let name = sp_opt_string(obj_lookup(e, "name"@));
            let schemes = match obj_lookup(e, "schemes"@) {
                Some(sv) => sp_strings_strict(sv),
                None => None,
            };
            if name is Some && schemes is Some {
                Some(ProtocolAssociationView { name: name->0, schemes: schemes->0 })
            } else {
                None
            }
        },
        _ => None,
    }
}

/// Whether every element reads as a protocol association.
pub open spec fn all_protocols(items: Seq<DocView>) -> bool {
    forall|i: int| 0 <= i < items.len() ==> (#[trigger] sp_protocol(items[i])) is Some
}

/// The protocol associations of a sequence of values.
pub open spec fn protocols_of(items: Seq<DocView>) -> Seq<ProtocolAssociationView> {
    Seq::new(items.len(), |i: int| sp_protocol(items[i])->0)
}

/// A protocol-list field that equally accepts nothing, one association,
/// or a list.
pub open spec fn sp_mbs_protocols(f: Option<DocView>) -> Option<Seq<ProtocolAssociationView>> {
    match f {
        None => Some(Seq::empty()),
        Some(v) => match v {
            DocView::Null => Some(Seq::empty()),
            DocView::Arr(items) => if all_protocols(items) {
                Some(protocols_of(items))
            } else {
                None
            },
            _ => match sp_protocol(v) {
                Some(p) => Some(seq![p]),
                None => None,
            },
        },
    }
}

/// A file association: a required single-or-list `ext` and an optional
/// MIME type.
pub open spec fn sp_fileassoc(v: DocView) -> Option<FileAssociationView> {
    match v {
        DocView::Obj(e) => {
            let ext = match obj_lookup(e, "ext"@) {
                Some(xv) => sp_mbs_strings(Some(xv)),
                None => None,
            };
            let mime = sp_opt_string(obj_lookup(e, "mimeType"@));
            if ext is Some && mime is Some {
                Some(FileAssociationView { ext: ext->0, mime_type: mime->0 })
            } else {
                None
            }
        },
        _ => None,
    }
}

/// Whether every element reads as a file association.
pub open spec fn all_fileassocs(items: Seq<DocView>) -> bool {
    forall|i: int| 0 <= i < items.len() ==> (#[trigger] sp_fileassoc(items[i])) is Some
}

/// The file associations of a sequence of values.
pub open spec fn fileassocs_of(items: Seq<DocView>) -> Seq<FileAssociationView> {
    Seq::new(items.len(), |i: int| sp_fileassoc(items[i])->0)
}

/// A file-association-list field that equally accepts nothing, one
/// association, or a list.
pub open spec fn sp_mbs_fileassocs(f: Option<DocView>) -> Option<Seq<FileAssociationView>> {
    match f {
        None => Some(Seq::empty()),
        Some(v) => match v {
            DocView::Null => Some(Seq::empty()),
            DocView::Arr(items) => if all_fileassocs(items) {
                Some(fileassocs_of(items))
            } else {
                None
            },
            _ => match sp_fileassoc(v) {
                Some(p) => Some(seq![p]),
                None => None,
            },
        },
    }
}

/// The `directories` section: only its `output` entry matters.
pub open spec fn sp_directories(f: Option<DocView>) -> Option<Option<Seq<char>>> {
    match f {
        None => Some(None),
        Some(v) => match v {
            DocView::Obj(e) => sp_opt_string(obj_lookup(e, "output"@)),
            _ => None,
        },
    }
}

/// The `extraMetadata` value: kept verbatim; absent or null is nothing.
pub open spec fn sp_extra_metadata(f: Option<DocView>) -> Option<DocView> {
    match f {
        None => None,
        Some(v) => match v {
            DocView::Null => None,
            _ => Some(v),
        },
    }
}

/// Whether every entry value is a string.
pub open spec fn all_str_vals(e: Seq<(Seq<char>, DocView)>) -> bool {
    forall|i: int| 0 <= i < e.len() ==> (#[trigger] e[i].1) is Str
}

/// The key/string pairs of a mapping of strings.
pub open spec fn kv_strs(e: Seq<(Seq<char>, DocView)>) -> Seq<(Seq<char>, Seq<char>)> {
    Seq::new(e.len(), |i: int| (e[i].0, e[i].1->Str_0))
}

/// The `desktop` mapping: string keys to string values.
pub open spec fn sp_desktop(f: Option<DocView>) -> Option<Option<Seq<(Seq<char>, Seq<char>)>>> {
    match f {
        None => Some(None),
        Some(v) => match v {
            DocView::Null => Some(None),
            DocView::Obj(e) => if all_str_vals(e) {
                Some(Some(kv_strs(e)))
            } else {
                None
            },
            _ => None,
        },
    }
}

/// The overridable properties read from a layer's own mapping.
pub open spec fn sp_common(e: Seq<(Seq<char>, DocView)>) -> Option<CommonOverridableView> {
    let description = sp_opt_string(obj_lookup(e, "description"@));
    let executable_name = sp_opt_string(obj_lookup(e, "executableName"@));
    let product_name = sp_opt_string(obj_lookup(e, "productName"@));
    let desktop_name = sp_opt_string(obj_lookup(e, "desktopName"@));
    if description is Some && executable_name is Some && product_name is Some && desktop_name
        is Some {
        Some(
            CommonOverridableView {
                description: description->0,
                executable_name: executable_name->0,
                product_name: product_name->0,
                desktop_name: desktop_name->0,
            },
        )
    } else {
        None
    }
}

/// One configuration layer read from a mapping.
pub open spec fn sp_base_obj(e: Seq<(Seq<char>, DocView)>) -> Option<EBuilderBaseView> {
    let common = sp_common(e);
    let files = sp_mbs_copydefs(obj_lookup(e, "files"@));
    let asar_unpack = sp_mbs_strings(obj_lookup(e, "asarUnpack"@));
    let extra_files = sp_mbs_copydefs(obj_lookup(e, "extraFiles"@));
    let extra_resources = sp_mbs_copydefs(obj_lookup(e, "extraResources"@));
    let output = sp_directories(obj_lookup(e, "directories"@));
    let icon = sp_opt_string(obj_lookup(e, "icon"@));
    let protocols = sp_mbs_protocols(obj_lookup(e, "protocols"@));
    let file_associations = sp_mbs_fileassocs(obj_lookup(e, "fileAssociations"@));
    let category = sp_mbs_strings(obj_lookup(e, "category"@));
    let desktop = sp_desktop(obj_lookup(e, "desktop"@));
    if common is Some && files is Some && asar_unpack is Some && extra_files is Some
        && extra_resources is Some && output is Some && icon is Some && protocols is Some
        && file_associations is Some && category is Some && desktop is Some {
        Some(
            EBuilderBaseView {
                common: common->0,
                files: files->0,
                asar_unpack: asar_unpack->0,
                extra_files: extra_files->0,
                extra_resources: extra_resources->0,
                output: output->0,
                icon: icon->0,
                protocols: protocols->0,
                file_associations: file_associations->0,
                extra_metadata: sp_extra_metadata(obj_lookup(e, "extraMetadata"@)),
                category: category->0,
                desktop: desktop->0,
            },
        )
    } else {
        None
    }
}

/// An empty configuration layer: what an absent platform section reads as.
pub open spec fn empty_base_view() -> EBuilderBaseView {
    EBuilderBaseView {
        common: CommonOverridableView {
            description: None,
            executable_name: None,
            product_name: None,
            desktop_name: None,
        },
        files: Seq::empty(),
        asar_unpack: Seq::empty(),
        extra_files: Seq::empty(),
        extra_resources: Seq::empty(),
        output: None,
        icon: None,
        protocols: Seq::empty(),
        file_associations: Seq::empty(),
        extra_metadata: None,
        category: Seq::empty(),
        desktop: None,
    }
}

/// A platform section: absent reads as an empty layer.
pub open spec fn sp_base_field(f: Option<DocView>) -> Option<EBuilderBaseView> {
    match f {
        None => Some(empty_base_view()),
        Some(v) => match v {
            DocView::Obj(e) => sp_base_obj(e),
            _ => None,
        },
    }
}

/// A whole configuration: the base layer read from the top-level mapping,
/// the platform layers from `linux`, `mac` and `win`.
pub open spec fn sp_config(v: DocView) -> Option<EBuilderConfigView> {
    match v {
        DocView::Obj(e) => {
            let base = sp_base_obj(e);
            let linux = sp_base_field(obj_lookup(e, "linux"@));
            let mac = sp_base_field(obj_lookup(e, "mac"@));
            let win = sp_base_field(obj_lookup(e, "win"@));
            if base is Some && linux is Some && mac is Some && win is Some {
                Some(
                    EBuilderConfigView {
                        base: base->0,
                        linux: linux->0,
                        mac: mac->0,
                        win: win->0,
                    },
                )
            } else {
                None
            }
        },
        _ => None,
    }
}

/// A `files`-style field that is absent, null or an empty list reads as
/// no declarations at all, and likewise for a string-list field.
pub proof fn lemma_empty_list_fields(f: Option<DocView>)
    requires
        f is None || f == Some(DocView::Null) || (f matches Some(v) && v matches DocView::Arr(
            items,
        ) && items.len() == 0),
    ensures
        sp_mbs_copydefs(f) == Some(Seq::<CopyDefView>::empty()),
        sp_mbs_strings(f) == Some(Seq::<Seq<char>>::empty()),
{
    match f {
        Some(DocView::Arr(items)) => {
            assert(copydefs_of(items) =~= Seq::<CopyDefView>::empty());
            assert(strs_of(items) =~= Seq::<Seq<char>>::empty());
        },
        _ => {},
    }
}

fn bad(what: &str) -> (r: Error)
    ensures
        r matches Error::ConfigParse(_),
{
    Error::ConfigParse(what.to_owned())
}

/// An optional string field of a document mapping.
fn parse_opt_string(f: Option<&DocValue>) -> (r: Result<Option<String>, Error>)
    ensures
        match r {
            Ok(o) => sp_opt_string(f.deep_view()) == Some(o.deep_view()),
            Err(e) => sp_opt_string(f.deep_view()) is None && e matches Error::ConfigParse(_),
        },
{
    match f {
        None => Ok(None),
        Some(DocValue::Null) => Ok(None),
        Some(DocValue::Str(s)) => Ok(Some(s.clone())),
        Some(_) => Err(bad("expected a string")),
    }
}

/// A single-or-list string field of a document mapping.
#[verifier::loop_isolation(false)]
fn parse_mbs_strings(f: Option<&DocValue>) -> (r: Result<Vec<String>, Error>)
    ensures
        match r {
            Ok(o) => sp_mbs_strings(f.deep_view()) == Some(o.deep_view()),
            Err(e) => sp_mbs_strings(f.deep_view()) is None && e matches Error::ConfigParse(_),
        },
{
    match f {
        None => {
            let out: Vec<String> = Vec::new();
            proof {
                assert(out.deep_view() =~= Seq::<Seq<char>>::empty());
            }
            Ok(out)
        },
        Some(v) => {
            let out = parse_strings_value(v)?;
            Ok(out)
        },
    }
}

/// A single-or-list string value.
#[verifier::loop_isolation(false)]
fn parse_strings_value(v: &DocValue) -> (r: Result<Vec<String>, Error>)
    ensures
        match r {
            Ok(o) => sp_mbs_strings(Some(v@)) == Some(o.deep_view()),
            Err(e) => sp_mbs_strings(Some(v@)) is None && e matches Error::ConfigParse(_),
        },
{
    match v {
        DocValue::Null => {
            let out: Vec<String> = Vec::new();
            proof {
                assert(out.deep_view() =~= Seq::<Seq<char>>::empty());
            }
            Ok(out)
        },
        DocValue::Str(s) => {
            let mut out: Vec<String> = Vec::new();
            out.push(s.clone());
            proof {
                assert(out.deep_view() =~= seq![s@]);
            }
            Ok(out)
        },
        DocValue::Arr(items) => {
            let ghost views = v@->Arr_0;
            proof {
                assert(views == crate::doc::doc_views(items@));
                assert(views.len() == items@.len());
            }
            let mut out: Vec<String> = Vec::new();
            let n = items.len();
            let mut i: usize = 0;
            while i < n
                invariant
                    i <= n,
                    out@.len() == i,
                    forall|j: int| 0 <= j < i ==> (#[trigger] views[j]) is Str,
                    forall|j: int| 0 <= j < i ==> #[trigger] out@[j]@ == views[j]->Str_0,
                decreases n - i,
            {
                match &items[i] {
                    DocValue::Str(s) => {
                        out.push(s.clone());
                    },
                    _ => {
                        proof {
                            assert(!(views[i as int] is Str));
                        }
                        return Err(bad("expected a string in the list"));
                    },
                }
                i += 1;
            }
            proof {
                assert(all_strs(views));
                assert(out.deep_view() =~= strs_of(views));
            }
            Ok(out)
        },
        _ => Err(bad("expected a string or a list of strings")),
    }
}

/// A strict list of strings.
#[verifier::loop_isolation(false)]
fn parse_strings_strict(v: &DocValue) -> (r: Result<Vec<String>, Error>)
    ensures
        match r {
            Ok(o) => sp_strings_strict(v@) == Some(o.deep_view()),
            Err(e) => sp_strings_strict(v@) is None && e matches Error::ConfigParse(_),
        },
{
    match v {
        DocValue::Arr(items) => {
            let ghost views = v@->Arr_0;
            proof {
                assert(views == crate::doc::doc_views(items@));
                assert(views.len() == items@.len());
            }
            let mut out: Vec<String> = Vec::new();
            let n = items.len();
            let mut i: usize = 0;
            while i < n
                invariant
                    i <= n,
                    out@.len() == i,
                    forall|j: int| 0 <= j < i ==> (#[trigger] views[j]) is Str,
                    forall|j: int| 0 <= j < i ==> #[trigger] out@[j]@ == views[j]->Str_0,
                decreases n - i,
            {
                match &items[i] {
                    DocValue::Str(s) => {
                        out.push(s.clone());
                    },
                    _ => {
                        proof {
                            assert(!(views[i as int] is Str));
                        }
                        return Err(bad("expected a string in the list"));
                    },
                }
                i += 1;
            }
            proof {
                assert(all_strs(views));
                assert(out.deep_view() =~= strs_of(views));
            }
            Ok(out)
        },
        _ => Err(bad("expected a list of strings")),
    }
}

/// A scoped copy read from a mapping value.
fn parse_fileset(v: &DocValue) -> (r: Result<FileSet, Error>)
    requires
        v@ is Obj,
    ensures
        match r {
            Ok(o) => sp_fileset(v@->Obj_0) == Some(o@),
            Err(e) => sp_fileset(v@->Obj_0) is None && e matches Error::ConfigParse(_),
        },
{
    let from = parse_opt_string(v.get("from"))?;
    let to = parse_opt_string(v.get("to"))?;
    let filter = parse_mbs_strings(v.get("filter"))?;
    Ok(FileSet { from, to, filter })
}

/// A copy declaration: a bare string or a scope mapping.
fn parse_copydef(v: &DocValue) -> (r: Result<CopyDef, Error>)
    ensures
        match r {
            Ok(o) => sp_copydef(v@) == Some(o@),
            Err(e) => sp_copydef(v@) is None && e matches Error::ConfigParse(_),
        },
{
    match v {
        DocValue::Str(s) => Ok(CopyDef::Simple(s.clone())),
        DocValue::Obj(_) => {
            let fs = parse_fileset(v)?;
            Ok(CopyDef::Scoped(fs))
        },
        _ => Err(bad("expected a glob string or a copy mapping")),
    }
}

/// A single-or-list copy field of a document mapping.
#[verifier::loop_isolation(false)]
fn parse_mbs_copydefs(f: Option<&DocValue>) -> (r: Result<Vec<CopyDef>, Error>)
    ensures
        match r {
            Ok(o) => sp_mbs_copydefs(f.deep_view()) == Some(o.deep_view()),
            Err(e) => sp_mbs_copydefs(f.deep_view()) is None && e matches Error::ConfigParse(_),
        },
{
    let v = match f {
        None => {
            let out: Vec<CopyDef> = Vec::new();
            proof {
                assert(out.deep_view() =~= Seq::<CopyDefView>::empty());
            }
            return Ok(out);
        },
        Some(v) => v,
    };
    match v {
        DocValue::Null => {
            let out: Vec<CopyDef> = Vec::new();
            proof {
                assert(out.deep_view() =~= Seq::<CopyDefView>::empty());
            }
            Ok(out)
        },
        DocValue::Arr(items) => {
            let ghost views = v@->Arr_0;
            proof {
                assert(views == crate::doc::doc_views(items@));
                assert(views.len() == items@.len());
            }
            let mut out: Vec<CopyDef> = Vec::new();
            let n = items.len();
            let mut i: usize = 0;
            while i < n
                invariant
                    i <= n,
                    out@.len() == i,
                    forall|j: int| 0 <= j < i ==> (#[trigger] sp_copydef(views[j])) is Some,
                    forall|j: int| 0 <= j < i ==> #[trigger] out@[j]@ == sp_copydef(views[j])->0,
                decreases n - i,
            {
                match parse_copydef(&items[i]) {
                    Ok(cd) => {
                        out.push(cd);
                    },
                    Err(e) => {
                        proof {
                            assert(sp_copydef(views[i as int]) is None);
                        }
                        return Err(e);
                    },
                }
                i += 1;
            }
            proof {
                assert(all_copydefs(views));
                assert(out.deep_view() =~= copydefs_of(views));
            }
            Ok(out)
        },
        _ => {
            let cd = parse_copydef(v)?;
            let mut out: Vec<CopyDef> = Vec::new();
            let ghost cdv = cd@;
            out.push(cd);
            proof {
                assert(out.deep_view() =~= seq![cdv]);
            }
            Ok(out)
        },
    }
}

/// A protocol association read from a value.
fn parse_protocol(v: &DocValue) -> (r: Result<ProtocolAssociation, Error>)
    ensures
        match r {
            Ok(o) => sp_protocol(v@) == Some(o@),
            Err(e) => sp_protocol(v@) is None && e matches Error::ConfigParse(_),
        },
{
    match v {
        DocValue::Obj(_) => {
            let name = parse_opt_string(v.get("name"))?;
            let schemes = match v.get("schemes") {
                Some(sv) => parse_strings_strict(sv)?,
                None => {
                    return Err(bad("a protocol association needs its schemes"));
                },
            };
            Ok(ProtocolAssociation { name, schemes })
        },
        _ => Err(bad("expected a protocol association mapping")),
    }
}

/// A single-or-list protocol field of a document mapping.
#[verifier::loop_isolation(false)]
fn parse_mbs_protocols(f: Option<&DocValue>) -> (r: Result<Vec<ProtocolAssociation>, Error>)
    ensures
        match r {
            Ok(o) => sp_mbs_protocols(f.deep_view()) == Some(o.deep_view()),
            Err(e) => sp_mbs_protocols(f.deep_view()) is None && e matches Error::ConfigParse(_),
        },
{
    let v = match f {
        None => {
            let out: Vec<ProtocolAssociation> = Vec::new();
            proof {
                assert(out.deep_view() =~= Seq::<ProtocolAssociationView>::empty());
            }
            return Ok(out);
        },
        Some(v) => v,
    };
    match v {
        DocValue::Null => {
            let out: Vec<ProtocolAssociation> = Vec::new();
            proof {
                assert(out.deep_view() =~= Seq::<ProtocolAssociationView>::empty());
            }
            Ok(out)
        },
        DocValue::Arr(items) => {
            let ghost views = v@->Arr_0;
            proof {
                assert(views == crate::doc::doc_views(items@));
                assert(views.len() == items@.len());
            }
            let mut out: Vec<ProtocolAssociation> = Vec::new();
            let n = items.len();
            let mut i: usize = 0;
            while i < n
                invariant
                    i <= n,
                    out@.len() == i,
                    forall|j: int| 0 <= j < i ==> (#[trigger] sp_protocol(views[j])) is Some,
                    forall|j: int| 0 <= j < i ==> #[trigger] out@[j]@ == sp_protocol(views[j])->0,
                decreases n - i,
            {
                match parse_protocol(&items[i]) {
                    Ok(p) => {
                        out.push(p);
                    },
                    Err(e) => {
                        proof {
                            assert(sp_protocol(views[i as int]) is None);
                        }
                        return Err(e);
                    },
                }
                i += 1;
            }
            proof {
                assert(all_protocols(views));
                assert(out.deep_view() =~= protocols_of(views));
            }
            Ok(out)
        },
        _ => {
            let p = parse_protocol(v)?;
            let mut out: Vec<ProtocolAssociation> = Vec::new();
            let ghost pv = p@;
            out.push(p);
            proof {
                assert(out.deep_view() =~= seq![pv]);
            }
            Ok(out)
        },
    }
}

/// A file association read from a value.
fn parse_fileassoc(v: &DocValue) -> (r: Result<FileAssociation, Error>)
    ensures
        match r {
            Ok(o) => sp_fileassoc(v@) == Some(o@),
            Err(e) => sp_fileassoc(v@) is None && e matches Error::ConfigParse(_),
        },
{
    match v {
        DocValue::Obj(_) => {
            let ext = match v.get("ext") {
                Some(xv) => parse_strings_value(xv)?,
                None => {
                    return Err(bad("a file association needs its ext"));
                },
            };
            let mime_type = parse_opt_string(v.get("mimeType"))?;
            Ok(FileAssociation { ext, mime_type })
        },
        _ => Err(bad("expected a file association mapping")),
    }
}

/// A single-or-list file-association field of a document mapping.
#[verifier::loop_isolation(false)]
fn parse_mbs_fileassocs(f: Option<&DocValue>) -> (r: Result<Vec<FileAssociation>, Error>)
    ensures
        match r {
            Ok(o) => sp_mbs_fileassocs(f.deep_view()) == Some(o.deep_view()),
            Err(e) => sp_mbs_fileassocs(f.deep_view()) is None && e matches Error::ConfigParse(_),
        },
{
    let v = match f {
        None => {
            let out: Vec<FileAssociation> = Vec::new();
            proof {
                assert(out.deep_view() =~= Seq::<FileAssociationView>::empty());
            }
            return Ok(out);
        },
        Some(v) => v,
    };
    match v {
        DocValue::Null => {
            let out: Vec<FileAssociation> = Vec::new();
            proof {
                assert(out.deep_view() =~= Seq::<FileAssociationView>::empty());
            }
            Ok(out)
        },
        DocValue::Arr(items) => {
            let ghost views = v@->Arr_0;
            proof {
                assert(views == crate::doc::doc_views(items@));
                assert(views.len() == items@.len());
            }
            let mut out: Vec<FileAssociation> = Vec::new();
            let n = items.len();
            let mut i: usize = 0;
            while i < n
                invariant
                    i <= n,
                    out@.len() == i,
                    forall|j: int| 0 <= j < i ==> (#[trigger] sp_fileassoc(views[j])) is Some,
                    forall|j: int| 0 <= j < i ==> #[trigger] out@[j]@ == sp_fileassoc(views[j])->0,
                decreases n - i,
            {
                match parse_fileassoc(&items[i]) {
                    Ok(p) => {
                        out.push(p);
                    },
                    Err(e) => {
                        proof {
                            assert(sp_fileassoc(views[i as int]) is None);
                        }
                        return Err(e);
                    },
                }
                i += 1;
            }
            proof {
                assert(all_fileassocs(views));
                assert(out.deep_view() =~= fileassocs_of(views));
            }
            Ok(out)
        },
        _ => {
            let p = parse_fileassoc(v)?;
            let mut out: Vec<FileAssociation> = Vec::new();
            let ghost pv = p@;
            out.push(p);
            proof {
                assert(out.deep_view() =~= seq![pv]);
            }
            Ok(out)
        },
    }
}

/// The `directories` section of a layer.
fn parse_directories(f: Option<&DocValue>) -> (r: Result<EBDirectories, Error>)
    ensures
        match r {
            Ok(o) => sp_directories(f.deep_view()) == Some(o.output.deep_view()),
            Err(e) => sp_directories(f.deep_view()) is None && e matches Error::ConfigParse(_),
        },
{
    match f {
        None => Ok(EBDirectories { output: None }),
        Some(v) => match v {
            DocValue::Obj(_) => {
                let output = parse_opt_string(v.get("output"))?;
                Ok(EBDirectories { output })
            },
            _ => Err(bad("expected a directories mapping")),
        },
    }
}

/// The `extraMetadata` value, kept verbatim.
fn parse_extra_metadata(f: Option<&DocValue>) -> (r: Option<DocValue>)
    ensures
        r.deep_view() == sp_extra_metadata(f.deep_view()),
{
    match f {
        None => None,
        Some(DocValue::Null) => None,
        Some(v) => Some(v.duplicate()),
    }
}

/// The `desktop` mapping of extra desktop-entry lines.
#[verifier::loop_isolation(false)]
fn parse_desktop(f: Option<&DocValue>) -> (r: Result<Option<Vec<(String, String)>>, Error>)
    ensures
        match r {
            Ok(o) => sp_desktop(f.deep_view()) == Some(o.deep_view()),
            Err(e) => sp_desktop(f.deep_view()) is None && e matches Error::ConfigParse(_),
        },
{
    let v = match f {
        None => {
            return Ok(None);
        },
        Some(v) => v,
    };
    match v {
        DocValue::Null => Ok(None),
        DocValue::Obj(entries) => {
            let ghost views = v@->Obj_0;
            proof {
                assert(views == crate::doc::doc_kv_views(entries@));
                assert(views.len() == entries@.len());
            }
            let mut out: Vec<(String, String)> = Vec::new();
            let n = entries.len();
            let mut i: usize = 0;
            while i < n
                invariant
                    i <= n,
                    out@.len() == i,
                    forall|j: int| 0 <= j < i ==> (#[trigger] views[j].1) is Str,
                    forall|j: int| 0 <= j < i ==> #[trigger] out@[j].0@ == views[j].0 && out@[j].1@
                        == views[j].1->Str_0,
                decreases n - i,
            {
                match &entries[i].1 {
                    DocValue::Str(s) => {
                        out.push((entries[i].0.clone(), s.clone()));
                    },
                    _ => {
                        proof {
                            assert(!(views[i as int].1 is Str));
                        }
                        return Err(bad("expected a mapping of strings"));
                    },
                }
                i += 1;
            }
            proof {
                assert(all_str_vals(views));
                assert(out.deep_view() =~= kv_strs(views));
            }
            Ok(Some(out))
        },
        _ => Err(bad("expected a desktop mapping")),
    }
}

/// The overridable properties of a layer's mapping.
pub(crate) fn parse_common(v: &DocValue) -> (r: Result<CommonOverridableProperties, Error>)
    requires
        v@ is Obj,
    ensures
        match r {
            Ok(o) => sp_common(v@->Obj_0) == Some(o@),
            Err(e) => sp_common(v@->Obj_0) is None && e matches Error::ConfigParse(_),
        },
{
    let description = parse_opt_string(v.get("description"))?;
    let executable_name = parse_opt_string(v.get("executableName"))?;
    let product_name = parse_opt_string(v.get("productName"))?;
    let desktop_name = parse_opt_string(v.get("desktopName"))?;
    Ok(CommonOverridableProperties { description, executable_name, product_name, desktop_name })
}

/// One configuration layer read from a mapping value.
fn parse_base_obj(v: &DocValue) -> (r: Result<EBuilderBaseConfig, Error>)
    requires
        v@ is Obj,
    ensures
        match r {
            Ok(o) => sp_base_obj(v@->Obj_0) == Some(o@),
            Err(e) => sp_base_obj(v@->Obj_0) is None && e matches Error::ConfigParse(_),
        },
{
    let common = parse_common(v)?;
    let files = parse_mbs_copydefs(v.get("files"))?;
    let asar_unpack = parse_mbs_strings(v.get("asarUnpack"))?;
    let extra_files = parse_mbs_copydefs(v.get("extraFiles"))?;
    let extra_resources = parse_mbs_copydefs(v.get("extraResources"))?;
    let directories = parse_directories(v.get("directories"))?;
    let icon = parse_opt_string(v.get("icon"))?;
    let protocols = parse_mbs_protocols(v.get("protocols"))?;
    let file_associations = parse_mbs_fileassocs(v.get("fileAssociations"))?;
    let extra_metadata = parse_extra_metadata(v.get("extraMetadata"));
    let category = parse_mbs_strings(v.get("category"))?;
    let desktop = parse_desktop(v.get("desktop"))?;
    Ok(
        EBuilderBaseConfig {
            common,
            files,
            asar_unpack,
            extra_files,
            extra_resources,
            directories,
            icon,
            protocols,
            file_associations,
            extra_metadata,
            category,
            desktop,
        },
    )
}

/// An empty configuration layer.
pub fn default_base_config() -> (r: EBuilderBaseConfig)
    ensures
        r@ == empty_base_view(),
{
    let r = EBuilderBaseConfig {
        common: CommonOverridableProperties {
            description: None,
            executable_name: None,
            product_name: None,
            desktop_name: None,
        },
        files: Vec::new(),
        asar_unpack: Vec::new(),
        extra_files: Vec::new(),
        extra_resources: Vec::new(),
        directories: EBDirectories { output: None },
        icon: None,
        protocols: Vec::new(),
        file_associations: Vec::new(),
        extra_metadata: None,
        category: Vec::new(),
        desktop: None,
    };
    proof {
        assert(r@.files =~= empty_base_view().files);
        assert(r@.asar_unpack =~= empty_base_view().asar_unpack);
        assert(r@.extra_files =~= empty_base_view().extra_files);
        assert(r@.extra_resources =~= empty_base_view().extra_resources);
        assert(r@.protocols =~= empty_base_view().protocols);
        assert(r@.file_associations =~= empty_base_view().file_associations);
        assert(r@.category =~= empty_base_view().category);
    }
    r
}

/// A platform section: absent reads as an empty layer.
fn parse_base_field(f: Option<&DocValue>) -> (r: Result<EBuilderBaseConfig, Error>)
    ensures
        match r {
            Ok(o) => sp_base_field(f.deep_view()) == Some(o@),
            Err(e) => sp_base_field(f.deep_view()) is None && e matches Error::ConfigParse(_),
        },
{
    match f {
        None => Ok(default_base_config()),
        Some(v) => match v {
            DocValue::Obj(_) => parse_base_obj(v),
            _ => Err(bad("expected a platform section mapping")),
        },
    }
}

/// A whole configuration read from a document.
pub fn parse_config(doc: &DocValue) -> (r: Result<EBuilderConfig, Error>)
    ensures
        match r {
            Ok(o) => sp_config(doc@) == Some(o@),
            Err(e) => sp_config(doc@) is None && e matches Error::ConfigParse(_),
        },
{
    match doc {
        DocValue::Obj(_) => {
            let base = parse_base_obj(doc)?;
            let linux = parse_base_field(doc.get("linux"))?;
            let mac = parse_base_field(doc.get("mac"))?;
            let win = parse_base_field(doc.get("win"))?;
            Ok(EBuilderConfig { base, linux, mac, win })
        },
        _ => Err(bad("expected a configuration mapping")),
    }
}

} // verus!
