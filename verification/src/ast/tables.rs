//! The hash tables of `im_rc` that the check state keeps, behind trusted items.
use vstd::prelude::*;

use im_rc::HashMap;

use crate::ast::{Definition, DefinitionView};
use crate::ast::instr::{FunctionType, FunctionTypeView};
use crate::semantic_analyze::Type;
use crate::span::Span;

verus! {

#[verifier::external_type_specification]
#[verifier::external_body]
#[verifier::reject_recursive_types(K)]
#[verifier::reject_recursive_types(V)]
#[verifier::reject_recursive_types(S)]
pub struct ExImHashMap<K, V, S>(HashMap<K, V, S>);

/// What a table of temporaries holds: for each name, its type and where it was defined.
pub uninterp spec fn temp_entries(m: HashMap<String, (Type, Span)>) -> Map<Seq<char>, (Type, Span)>;

/// What a table of labels holds: for each name, where it was defined.
pub uninterp spec fn label_entries(m: HashMap<String, Span>) -> Map<Seq<char>, Span>;

/// What a table of functions holds: for each name, its signature and where it was defined.
pub uninterp spec fn function_entries(m: HashMap<String, (FunctionType, Option<Span>)>) -> Map<Seq<char>, (FunctionTypeView, Option<Span>)>;

/// What a table of data definitions holds: for each name, its definition.
pub uninterp spec fn data_entries(m: HashMap<String, Definition>) -> Map<Seq<char>, DefinitionView>;

/// `im_rc::HashMap::new`: a new table holds nothing.
#[verifier::external_body]
pub(crate) fn new_temp_table() -> (m: HashMap<String, (Type, Span)>)
    ensures
        temp_entries(m).dom() == Set::<Seq<char>>::empty(),
{
    HashMap::new()
}

/// `im_rc::HashMap::get`: the value stored under the key, if any.
#[verifier::external_body]
pub(crate) fn temp_get<'b>(m: &'b HashMap<String, (Type, Span)>, k: &String) -> (r: Option<&'b (Type, Span)>)
    ensures
        match r {
            Some(v) => temp_entries(*m).contains_key(k@) && *v == temp_entries(*m)[k@],
            None => !temp_entries(*m).contains_key(k@),
        },
{
    m.get(k)
}

/// `im_rc::HashMap::insert`: stores the value under the key, replacing any earlier one.
#[verifier::external_body]
pub(crate) fn temp_insert(m: &mut HashMap<String, (Type, Span)>, k: String, v: (Type, Span))
    ensures
        temp_entries(*final(m)) == temp_entries(*old(m)).insert(k@, v),
{
    m.insert(k, v);
}

/// `im_rc::HashMap::clear`: the table holds nothing afterwards.
#[verifier::external_body]
pub(crate) fn temp_clear(m: &mut HashMap<String, (Type, Span)>)
    ensures
        temp_entries(*final(m)).dom() == Set::<Seq<char>>::empty(),
{
    m.clear();
}

/// `im_rc::HashMap::new`: a new table holds nothing.
#[verifier::external_body]
pub(crate) fn new_label_table() -> (m: HashMap<String, Span>)
    ensures
        label_entries(m).dom() == Set::<Seq<char>>::empty(),
{
    HashMap::new()
}

/// `im_rc::HashMap::get`: the value stored under the key, if any.
#[verifier::external_body]
pub(crate) fn label_get<'b>(m: &'b HashMap<String, Span>, k: &String) -> (r: Option<&'b Span>)
    ensures
        match r {
            Some(v) => label_entries(*m).contains_key(k@) && *v == label_entries(*m)[k@],
            None => !label_entries(*m).contains_key(k@),
        },
{
    m.get(k)
}

/// `im_rc::HashMap::contains_key`: whether a value is stored under the key.
#[verifier::external_body]
pub(crate) fn label_contains(m: &HashMap<String, Span>, k: &String) -> (r: bool)
    ensures
        r == label_entries(*m).contains_key(k@),
{
    m.contains_key(k)
}

/// `im_rc::HashMap::insert`: stores the value under the key, replacing any earlier one.
#[verifier::external_body]
pub(crate) fn label_insert(m: &mut HashMap<String, Span>, k: String, v: Span)
    ensures
        label_entries(*final(m)) == label_entries(*old(m)).insert(k@, v),
{
    m.insert(k, v);
}

/// `im_rc::HashMap::clear`: the table holds nothing afterwards.
#[verifier::external_body]
pub(crate) fn label_clear(m: &mut HashMap<String, Span>)
    ensures
        label_entries(*final(m)).dom() == Set::<Seq<char>>::empty(),
{
    m.clear();
}

/// `im_rc::HashMap::new`: a new table holds nothing.
#[verifier::external_body]
pub(crate) fn new_function_table() -> (m: HashMap<String, (FunctionType, Option<Span>)>)
    ensures
        function_entries(m).dom() == Set::<Seq<char>>::empty(),
{
    HashMap::new()
}

/// `im_rc::HashMap::get`: the value stored under the key, if any.
#[verifier::external_body]
pub(crate) fn function_get<'b>(m: &'b HashMap<String, (FunctionType, Option<Span>)>, k: &String) -> (r:
    Option<&'b (FunctionType, Option<Span>)>)
    ensures
        match r {
            Some(v) => function_entries(*m).contains_key(k@) && (v.0@, v.1)
                == function_entries(*m)[k@],
            None => !function_entries(*m).contains_key(k@),
        },
{
    m.get(k)
}

/// `im_rc::HashMap::contains_key`: whether a value is stored under the key.
#[verifier::external_body]
pub(crate) fn function_contains(m: &HashMap<String, (FunctionType, Option<Span>)>, k: &String) -> (r:
    bool)
    ensures
        r == function_entries(*m).contains_key(k@),
{
    m.contains_key(k)
}

/// `im_rc::HashMap::insert`: stores the value under the key, replacing any earlier one.
#[verifier::external_body]
pub(crate) fn function_insert(
    m: &mut HashMap<String, (FunctionType, Option<Span>)>,
    k: String,
    v: (FunctionType, Option<Span>),
)
    ensures
        function_entries(*final(m)) == function_entries(*old(m)).insert(k@, (v.0@, v.1)),
{
    m.insert(k, v);
}

/// `im_rc::HashMap::new`: a new table holds nothing.
#[verifier::external_body]
pub(crate) fn new_data_table() -> (table: HashMap<String, Definition>)
    ensures
        data_entries(table).dom() == Set::<Seq<char>>::empty(),
{
    HashMap::new()
}

/// `im_rc::HashMap::contains_key`: whether a value is stored under the key.
#[verifier::external_body]
pub(crate) fn data_contains(m: &HashMap<String, Definition>, k: &String) -> (r: bool)
    ensures
        r == data_entries(*m).contains_key(k@),
{
    m.contains_key(k)
}

/// `im_rc::HashMap::insert`: stores the value under the key, replacing any earlier one.
#[verifier::external_body]
pub(crate) fn data_insert(m: &mut HashMap<String, Definition>, k: String, v: Definition)
    ensures
        data_entries(*final(m)) == data_entries(*old(m)).insert(k@, v@),
{
    m.insert(k, v);
}

} // verus!
