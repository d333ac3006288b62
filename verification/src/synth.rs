//! From a structure and the annotations of its fields to the text of the code
//! that serves it: two accessor routines for each field, which give the bounds
//! of its version range, and one method that serializes the fields whose range
//! holds the version asked for.

use vstd::prelude::*;
use vstd::string::*;
use crate::meta::{bound_view, merged_all, metas_view, outcome, Error, MetaView, VersionMeta};
use crate::grammar::items;
use crate::token::{tokens_view, Literal, LiteralView, Token, TokenView};

verus! {

/// One annotation of a field: its path as written, and its arguments.
#[derive(Clone, Debug, PartialEq, Eq)]
pub struct Attribute {
    pub path: String,
    pub tokens: Vec<Token>,
}

/// One named field with its annotations, in their order.
#[derive(Clone, Debug, PartialEq, Eq)]
pub struct Field {
    pub name: String,
    pub attrs: Vec<Attribute>,
}

/// A structure with named fields, in the order of their declaration.
#[derive(Clone, Debug, PartialEq, Eq)]
pub struct Input {
    pub ident: String,
    pub fields: Vec<Field>,
}

/// What an `Attribute` stands for.
pub struct AttributeView {
    pub path: Seq<char>,
    pub tokens: Seq<TokenView>,
}

/// What a `Field` stands for.
pub struct FieldView {
    pub name: Seq<char>,
    pub attrs: Seq<AttributeView>,
}

/// What an `Input` stands for.
pub struct InputView {
    pub ident: Seq<char>,
    pub fields: Seq<FieldView>,
}

impl View for Attribute {
    type V = AttributeView;

    open spec fn view(&self) -> AttributeView {
        AttributeView { path: self.path@, tokens: tokens_view(self.tokens@) }
    }
}

/// The annotations of a list, each by what it stands for.
pub open spec fn attrs_view(attrs: Seq<Attribute>) -> Seq<AttributeView> {
    attrs.map_values(|a: Attribute| a@)
}

impl View for Field {
    type V = FieldView;

    open spec fn view(&self) -> FieldView {
        FieldView { name: self.name@, attrs: attrs_view(self.attrs@) }
    }
}

/// The fields of a list, each by what it stands for.
pub open spec fn fields_view(fields: Seq<Field>) -> Seq<FieldView> {
    fields.map_values(|f: Field| f@)
}

impl View for Input {
    type V = InputView;

    open spec fn view(&self) -> InputView {
        InputView { ident: self.ident@, fields: fields_view(self.fields@) }
    }
}

/// The strings of a list, each by its characters.
pub open spec fn strings_view(list: Seq<String>) -> Seq<Seq<char>> {
    list.map_values(|s: String| s@)
}

/// The field whose annotations were refused, and why.
#[derive(Clone, Debug, PartialEq, Eq)]
pub struct FieldError {
    pub field: usize,
    pub error: Error,
}

/// What the arguments of the annotation `attr` add to `acc`: the arguments
/// are read as a whole first, then their items are combined into `acc`.
pub open spec fn args_merged(acc: MetaView, tokens: Seq<TokenView>, attr: usize) -> Result<MetaView, Error> {
    match items(tokens, attr) {
        Err(e) => Err(e),
        Ok(list) => merged_all(acc, list, 0),
    }
}

/// The annotations `attrs[k..]` combined into `acc`. Only those whose path is
/// `version` count.
pub open spec fn field_meta_from(attrs: Seq<AttributeView>, k: int, acc: MetaView) -> Result<MetaView, Error>
    decreases attrs.len() - k,
{
    if k < 0 || k >= attrs.len() {
        Ok(acc)
    } else if attrs[k].path != "version"@ {
        field_meta_from(attrs, k + 1, acc)
    } else {
        match args_merged(acc, attrs[k].tokens, k as usize) {
            Err(e) => Err(e),
            Ok(m) => field_meta_from(attrs, k + 1, m),
        }
    }
}

/// The version range that the annotations of one field declare.
pub open spec fn field_meta(attrs: Seq<AttributeView>) -> Result<MetaView, Error> {
    field_meta_from(attrs, 0, MetaView::empty())
}

/// The descriptors of `fields[i..]`, behind those of `done`, up to the first
/// field that is refused.
pub open spec fn resolved_from(fields: Seq<FieldView>, i: int, done: Seq<MetaView>) -> Result<Seq<MetaView>, FieldError>
    decreases fields.len() - i,
{
    if i < 0 || i >= fields.len() {
        Ok(done)
    } else {
        match field_meta(fields[i].attrs) {
            Err(e) => Err(FieldError { field: i as usize, error: e }),
            Ok(m) => resolved_from(fields, i + 1, done.push(m)),
        }
    }
}

/// The descriptor of every field, or the first field that is refused.
pub open spec fn resolved(fields: Seq<FieldView>) -> Result<Seq<MetaView>, FieldError> {
    resolved_from(fields, 0, Seq::empty())
}

/// The literal of a bound: the one declared, and `"1.0"` where none was.
pub open spec fn bound_text(bound: Option<LiteralView>) -> Seq<char> {
    match bound {
        Some(l) => l.text,
        None => "\"1.0\""@,
    }
}

/// One accessor routine: it has the field's name with `suffix` behind it,
/// takes nothing and parses the literal.
pub open spec fn accessor_text(name: Seq<char>, suffix: Seq<char>, literal: Seq<char>) -> Seq<char> {
    "fn "@ + name + suffix + "() -> f32 { "@ + literal + ".parse::<f32>().unwrap() } "@
}

/// The statement that enters one field into the mapping, under `key`, where
/// the version asked for lies between the field's two bounds, both included.
pub open spec fn insert_text(name: Seq<char>, key: Seq<char>) -> Seq<char> {
    "if Self::"@ + name + "_version_max() >= version && version >= Self::"@ + name
        + "_version_min() { map.insert("@ + key + ".to_string(), self."@ + name
        + ".to_string()); } "@
}

/// The accessor routines of `fields[i..]`, behind `done`: for each field the
/// upper bound, then the lower.
pub open spec fn accessors_from(fields: Seq<FieldView>, metas: Seq<MetaView>, i: int, done: Seq<char>) -> Seq<char>
    decreases fields.len() - i,
{
    if i < 0 || i >= fields.len() || i >= metas.len() {
        done
    } else {
        accessors_from(
            fields,
            metas,
            i + 1,
            done + accessor_text(fields[i].name, "_version_max"@, bound_text(metas[i].until))
                + accessor_text(fields[i].name, "_version_min"@, bound_text(metas[i].since)),
        )
    }
}

/// The statements that enter `fields[i..]`, behind `done`, in the order of
/// declaration.
pub open spec fn inserts_from(fields: Seq<FieldView>, keys: Seq<Seq<char>>, i: int, done: Seq<char>) -> Seq<char>
    decreases fields.len() - i,
{
    if i < 0 || i >= fields.len() || i >= keys.len() {
        done
    } else {
        inserts_from(fields, keys, i + 1, done + insert_text(fields[i].name, keys[i]))
    }
}

/// The two blocks around the routines and the statements: the accessors on
/// the type itself, and the serialization method, which fills an ordered
/// mapping and returns its debug rendering.
pub open spec fn assembled(ident: Seq<char>, accessors: Seq<char>, inserts: Seq<char>) -> Seq<char> {
    "impl "@ + ident + " { "@ + accessors
        + "} use std::collections::BTreeMap; use into_json::IntoJson; impl IntoJson for "@ + ident
        + " { fn into_json(self, version: f32) -> String { let mut map: BTreeMap<String, String> = BTreeMap::new(); "@
        + inserts + "format!(\"{:?}\", map) } }"@
}

/// The whole text for a structure whose fields have the descriptors `metas`
/// and the key literals `keys`.
pub open spec fn code(ident: Seq<char>, fields: Seq<FieldView>, metas: Seq<MetaView>, keys: Seq<Seq<char>>) -> Seq<char> {
    assembled(
        ident,
        accessors_from(fields, metas, 0, Seq::empty()),
        inserts_from(fields, keys, 0, Seq::empty()),
    )
}

/// `text` is the whole text for the structure, with some string literal as
/// the key of each field.
pub open spec fn written(ident: Seq<char>, fields: Seq<FieldView>, metas: Seq<MetaView>, text: Seq<char>) -> bool {
    exists|keys: Seq<Seq<char>>|
        keys.len() == fields.len() && #[trigger] code(ident, fields, metas, keys) == text
}

/// The text of the string literal that `proc_macro2::Literal::string` makes
/// of `name`, as its `Display` prints it. Nothing is claimed of that text:
/// how a string is quoted and escaped is the outside crate's business.
#[verifier::external_body]
fn key_literal(name: &str) -> (r: String) {
    proc_macro2::Literal::string(name).to_string()
}

fn accessor(name: &str, suffix: &str, literal: &str) -> (r: String)
    ensures
        r@ == accessor_text(name@, suffix@, literal@),
{
    let mut out = String::from_str("fn ");
    out.append(name);
    out.append(suffix);
    out.append("() -> f32 { ");
    out.append(literal);
    out.append(".parse::<f32>().unwrap() } ");
    out
}

fn insert(name: &str, key: &str) -> (r: String)
    ensures
        r@ == insert_text(name@, key@),
{
    let mut out = String::from_str("if Self::");
    out.append(name);
    out.append("_version_max() >= version && version >= Self::");
    out.append(name);
    out.append("_version_min() { map.insert(");
    out.append(key);
    out.append(".to_string(), self.");
    out.append(name);
    out.append(".to_string()); } ");
    out
}

fn bound<'a>(declared: &'a Option<Literal>) -> (r: &'a str)
    ensures
        r@ == bound_text(bound_view(*declared)),
{
    match declared {
        Some(l) => l.text.as_str(),
        None => "\"1.0\"",
    }
}

/// Combines the annotations of one field into its descriptor. Annotations
/// whose path is not `version` are passed over. The first annotation whose
/// arguments break the grammar, or declare a bound that is declared already,
/// decides the failure.
pub fn resolve_field(attrs: &Vec<Attribute>) -> (r: Result<VersionMeta, Error>)
    ensures
        outcome(r) == field_meta(attrs_view(attrs@)),
{
    let word = String::from_str("version");
    let mut acc = VersionMeta::new();
    let mut k: usize = 0;
    while k < attrs.len()
        invariant
            k <= attrs.len(),
            word@ == "version"@,
            field_meta_from(attrs_view(attrs@), k as int, acc@) == field_meta(attrs_view(attrs@)),
        decreases attrs.len() - k,
    {
        if attrs[k].path == word {
            let list = match VersionMeta::parse_list(&attrs[k].tokens, k) {
                Ok(list) => list,
                Err(e) => { return Err(e); },
            };
            match acc.merge_all(&list) {
                Ok(m) => { acc = m; },
                Err(e) => { return Err(e); },
            }
        }
        k = k + 1;
    }
    Ok(acc)
}

/// The descriptor of every field, in the order of declaration, or the first
/// field whose annotations are refused, with the reason.
pub fn resolve(fields: &Vec<Field>) -> (r: Result<Vec<VersionMeta>, FieldError>)
    ensures
        match r {
            Ok(metas) => resolved(fields_view(fields@)) == Ok::<Seq<MetaView>, FieldError>(metas_view(metas@)),
            Err(e) => resolved(fields_view(fields@)) == Err::<Seq<MetaView>, FieldError>(e),
        },
        r matches Ok(metas) ==> metas@.len() == fields@.len(),
{
    let mut metas: Vec<VersionMeta> = Vec::new();
    let mut i: usize = 0;
    assert(metas_view(metas@) =~= Seq::empty());
    while i < fields.len()
        invariant
            i <= fields.len(),
            metas@.len() == i,
            resolved_from(fields_view(fields@), i as int, metas_view(metas@)) == resolved(fields_view(fields@)),
        decreases fields.len() - i,
    {
        match resolve_field(&fields[i].attrs) {
            Ok(m) => {
                let ghost before = metas_view(metas@);
                metas.push(m);
                assert(metas_view(metas@) =~= before.push(m@));
            },
            Err(e) => { return Err(FieldError { field: i, error: e }); },
        }
        i = i + 1;
    }
    Ok(metas)
}

/// Writes the text for a structure: the block of accessor routines, two for
/// each field, and the serialization method with one statement for each
/// field, all in the order of declaration. `metas` holds the descriptor of
/// each field and `keys` the string literal under which it is entered.
pub fn emit(ident: &str, fields: &Vec<Field>, metas: &Vec<VersionMeta>, keys: &Vec<String>) -> (r: String)
    requires
        metas@.len() == fields@.len(),
        keys@.len() == fields@.len(),
    ensures
        r@ == code(ident@, fields_view(fields@), metas_view(metas@), strings_view(keys@)),
{
    let mut accessors = String::new();
    let mut inserts = String::new();
    let mut i: usize = 0;
    while i < fields.len()
        invariant
            i <= fields.len(),
            metas@.len() == fields@.len(),
            keys@.len() == fields@.len(),
            accessors_from(fields_view(fields@), metas_view(metas@), i as int, accessors@) == accessors_from(
                fields_view(fields@),
                metas_view(metas@),
                0,
                Seq::empty(),
            ),
            inserts_from(fields_view(fields@), strings_view(keys@), i as int, inserts@) == inserts_from(
                fields_view(fields@),
                strings_view(keys@),
                0,
                Seq::empty(),
            ),
        decreases fields.len() - i,
    {
        let name = fields[i].name.as_str();
        let max = accessor(name, "_version_max", bound(&metas[i].until));
        let min = accessor(name, "_version_min", bound(&metas[i].since));
        accessors.append(max.as_str());
        accessors.append(min.as_str());
        let entry = insert(name, keys[i].as_str());
        inserts.append(entry.as_str());
        i = i + 1;
    }
    let mut out = String::from_str("impl ");
    out.append(ident);
    out.append(" { ");
    out.append(accessors.as_str());
    out.append("} use std::collections::BTreeMap; use into_json::IntoJson; impl IntoJson for ");
    out.append(ident);
    out.append(" { fn into_json(self, version: f32) -> String { let mut map: BTreeMap<String, String> = BTreeMap::new(); ");
    out.append(inserts.as_str());
    out.append("format!(\"{:?}\", map) } }");
    out
}

/// Writes the accessor routines and the serialization method of a structure.
/// The annotations of every field are read and combined first, and the first
/// field that is refused ends the work: nothing is written then. Otherwise
/// the text is the one that `code` gives for the fields' descriptors; the
/// key of each field is a string literal made from its name.
pub fn version_derive(input: &Input) -> (r: Result<String, FieldError>)
    ensures
        match resolved(input@.fields) {
            Err(e) => r == Err::<String, FieldError>(e),
            Ok(metas) => r is Ok && written(input@.ident, input@.fields, metas, r->Ok_0@),
        },
{
    let metas = match resolve(&input.fields) {
        Ok(metas) => metas,
        Err(e) => { return Err(e); },
    };
    let mut keys: Vec<String> = Vec::new();
    let mut i: usize = 0;
    while i < input.fields.len()
        invariant
            i <= input.fields.len(),
            keys@.len() == i,
            metas@.len() == input.fields@.len(),
            resolved(input@.fields) == Ok::<Seq<MetaView>, FieldError>(metas_view(metas@)),
        decreases input.fields.len() - i,
    {
        keys.push(key_literal(input.fields[i].name.as_str()));
        i = i + 1;
    }
    let text = emit(input.ident.as_str(), &input.fields, &metas, &keys);
    assert(strings_view(keys@).len() == input@.fields.len() && code(
        input@.ident,
        input@.fields,
        metas_view(metas@),
        strings_view(keys@),
    ) == text@);
    assert(written(input@.ident, input@.fields, metas_view(metas@), text@));
    Ok(text)
}

} // verus!
