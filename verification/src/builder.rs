//! The schema builder: a single linear scan over the classified blocks,
//! grouping each declaration heading with the paragraph and shape-bearing
//! block that follow it.  Type extraction and method extraction are two
//! independent passes over the same immutable block sequence, told apart
//! only by the case of the pending heading's first letter.

use vstd::prelude::*;

use crate::blocks::{Block, BlockModel, CellModel, RowModel, TableRow, blocks_view, rows_view, strings_view};
use crate::error::{ErrorModel, ParseError};
use crate::norm::{normalize, normalize_spec};
use crate::schema::{
    Field, FieldModel, Method, MethodModel, Parameter, ParameterModel, Type, TypeModel,
    field_eq, fields_contain, fields_view, methods_contain, methods_view, parameters_view,
    types_contain, types_view,
};
use crate::text::{is_prefix, lower_led, upper_led, head_is_lower, head_is_upper, starts_with, str_eq};

verus! {

/// The text of the first cell under the given column, when the row has
/// one.
pub open spec fn cells_get(cells: Seq<CellModel>, col: Seq<char>) -> Option<Seq<char>>
    decreases cells.len(),
{
    if cells.len() == 0 {
        None
    } else if cells[0].column == col {
        Some(cells[0].text)
    } else {
        cells_get(cells.drop_first(), col)
    }
}

/// The text a row holds under the given column.
pub open spec fn row_get(row: RowModel, col: Seq<char>) -> Option<Seq<char>> {
    cells_get(row.cells, col)
}

/// The field a table row describes: its `Field`, `Type` and `Description`
/// columns are each required, and the first one missing names the error;
/// the field is optional exactly when its description opens with the word
/// `Optional`.
pub open spec fn field_of_row(row: RowModel) -> Result<FieldModel, ErrorModel> {
    match row_get(row, "Field"@) {
        None => Err(ErrorModel::MissingColumn { column: "Field"@ }),
        Some(name) => match row_get(row, "Type"@) {
            None => Err(ErrorModel::MissingColumn { column: "Type"@ }),
            Some(raw) => match row_get(row, "Description"@) {
                None => Err(ErrorModel::MissingColumn { column: "Description"@ }),
                Some(desc) => Ok(
                    FieldModel {
                        name,
                        ty: normalize_spec(raw),
                        optional: is_prefix("Optional"@, desc),
                        description: desc,
                    },
                ),
            },
        },
    }
}

/// The fields of a table's rows, in row order, with set semantics: a row
/// equal in every part to an earlier one adds nothing.  The first broken
/// row aborts the decoding.
pub open spec fn fields_of_rows(rows: Seq<RowModel>) -> Result<Seq<FieldModel>, ErrorModel>
    decreases rows.len(),
{
    if rows.len() == 0 {
        Ok(Seq::empty())
    } else {
        match fields_of_rows(rows.drop_last()) {
            Err(e) => Err(e),
            Ok(acc) => match field_of_row(rows.last()) {
                Err(e) => Err(e),
                Ok(f) => if acc.contains(f) {
                    Ok(acc)
                } else {
                    Ok(acc.push(f))
                },
            },
        }
    }
}

/// The parameter a table row describes.  `Parameter`, `Type` and
/// `Description` are each required; the `Required` column is not — a
/// parameter is required unless that column reads `Optional`.
pub open spec fn param_of_row(row: RowModel) -> Result<ParameterModel, ErrorModel> {
    match row_get(row, "Parameter"@) {
        None => Err(ErrorModel::MissingColumn { column: "Parameter"@ }),
        Some(name) => match row_get(row, "Type"@) {
            None => Err(ErrorModel::MissingColumn { column: "Type"@ }),
            Some(raw) => match row_get(row, "Description"@) {
                None => Err(ErrorModel::MissingColumn { column: "Description"@ }),
                Some(desc) => Ok(
                    ParameterModel {
                        name,
                        ty: normalize_spec(raw),
                        required: match row_get(row, "Required"@) {
                            Some(v) => v != "Optional"@,
                            None => true,
                        },
                        description: desc,
                    },
                ),
            },
        },
    }
}

/// The parameters of a method's rows, kept in row order.  The first broken
/// row aborts the decoding.
pub open spec fn params_of_rows(rows: Seq<RowModel>) -> Result<Seq<ParameterModel>, ErrorModel>
    decreases rows.len(),
{
    if rows.len() == 0 {
        Ok(Seq::empty())
    } else {
        match params_of_rows(rows.drop_last()) {
            Err(e) => Err(e),
            Ok(acc) => match param_of_row(rows.last()) {
                Err(e) => Err(e),
                Ok(p) => Ok(acc.push(p)),
            },
        }
    }
}

/// The fields an enum-like list describes: each item's text is both the
/// field's name and its type.
pub open spec fn fields_of_items(items: Seq<Seq<char>>) -> Seq<FieldModel>
    decreases items.len(),
{
    if items.len() == 0 {
        Seq::empty()
    } else {
        fields_of_items(items.drop_last()).push(
            FieldModel {
                name: items.last(),
                ty: items.last(),
                optional: false,
                description: Seq::empty(),
            },
        )
    }
}

/// The parameters a list describes under a method heading, each required.
pub open spec fn params_of_items(items: Seq<Seq<char>>) -> Seq<ParameterModel>
    decreases items.len(),
{
    if items.len() == 0 {
        Seq::empty()
    } else {
        params_of_items(items.drop_last()).push(
            ParameterModel {
                name: items.last(),
                ty: items.last(),
                required: true,
                description: Seq::empty(),
            },
        )
    }
}

/// What the previous block of the scan was.  The scan starts in `Start`,
/// which behaves like any non-paragraph kind.
#[derive(Clone, Copy)]
pub enum ScanKind {
    Start,
    Heading,
    Paragraph,
    Table,
    List,
}

/// The scan state: the kind of the previous block, the pending declaration
/// name and description, and whether a shape-bearing block has already been
/// consumed for the pending declaration.
pub ghost struct ScanModel {
    pub prev: ScanKind,
    pub name: Seq<char>,
    pub desc: Seq<char>,
    pub shape_taken: bool,
}

/// The state the scan starts in: nothing pending.
pub open spec fn scan_init() -> ScanModel {
    ScanModel {
        prev: ScanKind::Start,
        name: Seq::empty(),
        desc: Seq::empty(),
        shape_taken: false,
    }
}

/// Set semantics of the type collection: an exact duplicate adds nothing.
pub open spec fn push_unique_type(acc: Seq<TypeModel>, t: TypeModel) -> Seq<TypeModel> {
    if acc.contains(t) {
        acc
    } else {
        acc.push(t)
    }
}

/// Set semantics of the method collection: an exact duplicate adds nothing.
pub open spec fn push_unique_method(acc: Seq<MethodModel>, m: MethodModel) -> Seq<MethodModel> {
    if acc.contains(m) {
        acc
    } else {
        acc.push(m)
    }
}

/// One transition of the type-extraction pass.  A heading right after a
/// paragraph finalizes the pending capital-led declaration as a field-less
/// type; a shape-bearing block finalizes it with the decoded fields; a
/// second shape-bearing block under one heading is a contradiction.
pub open spec fn type_step(st: ScanModel, acc: Seq<TypeModel>, b: BlockModel) -> Result<
    (ScanModel, Seq<TypeModel>),
    ErrorModel,
> {
    match b {
        BlockModel::Heading { text } => {
            let acc2 = if st.prev is Paragraph && upper_led(st.name) {
                push_unique_type(
                    acc,
                    TypeModel { name: st.name, description: st.desc, fields: Seq::empty() },
                )
            } else {
                acc
            };
            Ok(
                (
                    ScanModel {
                        prev: ScanKind::Heading,
                        name: text,
                        desc: Seq::empty(),
                        shape_taken: false,
                    },
                    acc2,
                ),
            )
        },
        BlockModel::Paragraph { text } => Ok(
            (
                ScanModel {
                    prev: ScanKind::Paragraph,
                    name: st.name,
                    desc: text,
                    shape_taken: st.shape_taken,
                },
                acc,
            ),
        ),
        BlockModel::FieldTable { rows } => {
            if upper_led(st.name) {
                if st.shape_taken {
                    Err(ErrorModel::AmbiguousShape { name: st.name })
                } else {
                    match fields_of_rows(rows) {
                        Err(e) => Err(e),
                        Ok(fs) => Ok(
                            (
                                ScanModel {
                                    prev: ScanKind::Table,
                                    name: st.name,
                                    desc: st.desc,
                                    shape_taken: true,
                                },
                                push_unique_type(
                                    acc,
                                    TypeModel { name: st.name, description: st.desc, fields: fs },
                                ),
                            ),
                        ),
                    }
                }
            } else {
                Ok(
                    (
                        ScanModel {
                            prev: ScanKind::Table,
                            name: st.name,
                            desc: st.desc,
                            shape_taken: st.shape_taken,
                        },
                        acc,
                    ),
                )
            }
        },
        BlockModel::ItemList { items } => {
            if upper_led(st.name) {
                if st.shape_taken {
                    Err(ErrorModel::AmbiguousShape { name: st.name })
                } else {
                    Ok(
                        (
                            ScanModel {
                                prev: ScanKind::List,
                                name: st.name,
                                desc: st.desc,
                                shape_taken: true,
                            },
                            push_unique_type(
                                acc,
                                TypeModel {
                                    name: st.name,
                                    description: st.desc,
                                    fields: fields_of_items(items),
                                },
                            ),
                        ),
                    )
                }
            } else {
                Ok(
                    (
                        ScanModel {
                            prev: ScanKind::List,
                            name: st.name,
                            desc: st.desc,
                            shape_taken: st.shape_taken,
                        },
                        acc,
                    ),
                )
            }
        },
    }
}

/// The type-extraction scan over a block prefix: state and collection after
/// every block so far, or the first failure.
pub open spec fn type_fold(bs: Seq<BlockModel>) -> Result<
    (ScanModel, Seq<TypeModel>),
    ErrorModel,
>
    decreases bs.len(),
{
    if bs.len() == 0 {
        Ok((scan_init(), Seq::empty()))
    } else {
        match type_fold(bs.drop_last()) {
            Err(e) => Err(e),
            Ok((st, acc)) => type_step(st, acc, bs.last()),
        }
    }
}

/// The end-of-scan flush: a pending capital-led declaration whose last
/// signal was a paragraph is finalized as a field-less type, mirroring what
/// the next heading would have done.
pub open spec fn flush_types(st: ScanModel, acc: Seq<TypeModel>) -> Seq<TypeModel> {
    if st.prev is Paragraph && upper_led(st.name) {
        push_unique_type(
            acc,
            TypeModel { name: st.name, description: st.desc, fields: Seq::empty() },
        )
    } else {
        acc
    }
}

/// The types a block sequence describes, or the first failure of the pass.
pub open spec fn types_of_blocks(bs: Seq<BlockModel>) -> Result<Seq<TypeModel>, ErrorModel> {
    match type_fold(bs) {
        Err(e) => Err(e),
        Ok((st, acc)) => Ok(flush_types(st, acc)),
    }
}

/// One transition of the method-extraction pass: the mirror image of the
/// type pass, keyed on small-led pending names and producing parameters.
pub open spec fn method_step(st: ScanModel, acc: Seq<MethodModel>, b: BlockModel) -> Result<
    (ScanModel, Seq<MethodModel>),
    ErrorModel,
> {
    match b {
        BlockModel::Heading { text } => {
            let acc2 = if st.prev is Paragraph && lower_led(st.name) {
                push_unique_method(
                    acc,
                    MethodModel { name: st.name, description: st.desc, parameters: Seq::empty() },
                )
            } else {
                acc
            };
            Ok(
                (
                    ScanModel {
                        prev: ScanKind::Heading,
                        name: text,
                        desc: Seq::empty(),
                        shape_taken: false,
                    },
                    acc2,
                ),
            )
        },
        BlockModel::Paragraph { text } => Ok(
            (
                ScanModel {
                    prev: ScanKind::Paragraph,
                    name: st.name,
                    desc: text,
                    shape_taken: st.shape_taken,
                },
                acc,
            ),
        ),
        BlockModel::FieldTable { rows } => {
            if lower_led(st.name) {
                if st.shape_taken {
                    Err(ErrorModel::AmbiguousShape { name: st.name })
                } else {
                    match params_of_rows(rows) {
                        Err(e) => Err(e),
                        Ok(ps) => Ok(
                            (
                                ScanModel {
                                    prev: ScanKind::Table,
                                    name: st.name,
                                    desc: st.desc,
                                    shape_taken: true,
                                },
                                push_unique_method(
                                    acc,
                                    MethodModel {
                                        name: st.name,
                                        description: st.desc,
                                        parameters: ps,
                                    },
                                ),
                            ),
                        ),
                    }
                }
            } else {
                Ok(
                    (
                        ScanModel {
                            prev: ScanKind::Table,
                            name: st.name,
                            desc: st.desc,
                            shape_taken: st.shape_taken,
                        },
                        acc,
                    ),
                )
            }
        },
        BlockModel::ItemList { items } => {
            if lower_led(st.name) {
                if st.shape_taken {
                    Err(ErrorModel::AmbiguousShape { name: st.name })
                } else {
                    Ok(
                        (
                            ScanModel {
                                prev: ScanKind::List,
                                name: st.name,
                                desc: st.desc,
                                shape_taken: true,
                            },
                            push_unique_method(
                                acc,
                                MethodModel {
                                    name: st.name,
                                    description: st.desc,
                                    parameters: params_of_items(items),
                                },
                            ),
                        ),
                    )
                }
            } else {
                Ok(
                    (
                        ScanModel {
                            prev: ScanKind::List,
                            name: st.name,
                            desc: st.desc,
                            shape_taken: st.shape_taken,
                        },
                        acc,
                    ),
                )
            }
        },
    }
}

/// The method-extraction scan over a block prefix.
pub open spec fn method_fold(bs: Seq<BlockModel>) -> Result<
    (ScanModel, Seq<MethodModel>),
    ErrorModel,
>
    decreases bs.len(),
{
    if bs.len() == 0 {
        Ok((scan_init(), Seq::empty()))
    } else {
        match method_fold(bs.drop_last()) {
            Err(e) => Err(e),
            Ok((st, acc)) => method_step(st, acc, bs.last()),
        }
    }
}

/// The end-of-scan flush of the method pass.
pub open spec fn flush_methods(st: ScanModel, acc: Seq<MethodModel>) -> Seq<MethodModel> {
    if st.prev is Paragraph && lower_led(st.name) {
        push_unique_method(
            acc,
            MethodModel { name: st.name, description: st.desc, parameters: Seq::empty() },
        )
    } else {
        acc
    }
}

/// The methods a block sequence describes, or the first failure of the
/// pass.
pub open spec fn methods_of_blocks(bs: Seq<BlockModel>) -> Result<Seq<MethodModel>, ErrorModel> {
    match method_fold(bs) {
        Err(e) => Err(e),
        Ok((st, acc)) => Ok(flush_methods(st, acc)),
    }
}

/// The text the row holds under the given column, when it has one.
pub fn row_lookup(row: &TableRow, col: &str) -> (r: Option<String>)
    ensures
        match r {
            Some(s) => row_get(row@, col@) == Some(s@),
            None => row_get(row@, col@) is None,
        },
{
    let mut i: usize = 0;
    proof {
        assert(row@.cells.skip(0) =~= row@.cells);
    }
    while i < row.cells.len()
        invariant
            i <= row.cells@.len(),
            row@.cells.len() == row.cells@.len(),
            forall|j: int| 0 <= j < row.cells@.len() ==> row@.cells[j] == row.cells@[j]@,
            cells_get(row@.cells, col@) == cells_get(row@.cells.skip(i as int), col@),
        decreases row.cells@.len() - i,
    {
        if str_eq(row.cells[i].column.as_str(), col) {
            proof {
                assert(row@.cells.skip(i as int)[0] == row@.cells[i as int]);
            }
            return Some(row.cells[i].text.clone());
        }
        proof {
            assert(row@.cells.skip(i as int).drop_first() =~= row@.cells.skip(i + 1));
        }
        i += 1;
    }
    None
}

/// Decodes one field from a table row, naming the first missing column.
pub fn field_from_row(row: &TableRow) -> (r: Result<Field, ParseError>)
    ensures
        match r {
            Ok(f) => field_of_row(row@) == Ok::<FieldModel, ErrorModel>(f@),
            Err(e) => field_of_row(row@) == Err::<FieldModel, ErrorModel>(e@),
        },
{
    let name: String = match row_lookup(row, "Field") {
        Some(s) => s,
        None => {
            return Err(ParseError::MissingColumn { column: String::from_str("Field") });
        },
    };
    let raw: String = match row_lookup(row, "Type") {
        Some(s) => s,
        None => {
            return Err(ParseError::MissingColumn { column: String::from_str("Type") });
        },
    };
    let description: String = match row_lookup(row, "Description") {
        Some(s) => s,
        None => {
            return Err(ParseError::MissingColumn { column: String::from_str("Description") });
        },
    };
    let ty: String = normalize(raw.as_str());
    let optional: bool = starts_with(description.as_str(), "Optional");
    Ok(Field { name, ty, optional, description })
}

/// Decodes one parameter from a table row, naming the first missing
/// column.
pub fn param_from_row(row: &TableRow) -> (r: Result<Parameter, ParseError>)
    ensures
        match r {
            Ok(p) => param_of_row(row@) == Ok::<ParameterModel, ErrorModel>(p@),
            Err(e) => param_of_row(row@) == Err::<ParameterModel, ErrorModel>(e@),
        },
{
    let name: String = match row_lookup(row, "Parameter") {
        Some(s) => s,
        None => {
            return Err(ParseError::MissingColumn { column: String::from_str("Parameter") });
        },
    };
    let raw: String = match row_lookup(row, "Type") {
        Some(s) => s,
        None => {
            return Err(ParseError::MissingColumn { column: String::from_str("Type") });
        },
    };
    let description: String = match row_lookup(row, "Description") {
        Some(s) => s,
        None => {
            return Err(ParseError::MissingColumn { column: String::from_str("Description") });
        },
    };
    let required: bool = match row_lookup(row, "Required") {
        Some(v) => !str_eq(v.as_str(), "Optional"),
        None => true,
    };
    let ty: String = normalize(raw.as_str());
    Ok(Parameter { name, ty, required, description })
}

proof fn lemma_fields_err_persists(rows: Seq<RowModel>, i: int)
    requires
        0 <= i <= rows.len(),
        fields_of_rows(rows.take(i)) is Err,
    ensures
        fields_of_rows(rows) == fields_of_rows(rows.take(i)),
    decreases rows.len() - i,
{
    if i < rows.len() {
        assert(rows.take(i + 1).drop_last() =~= rows.take(i));
        lemma_fields_err_persists(rows, i + 1);
    } else {
        assert(rows.take(i) =~= rows);
    }
}

proof fn lemma_params_err_persists(rows: Seq<RowModel>, i: int)
    requires
        0 <= i <= rows.len(),
        params_of_rows(rows.take(i)) is Err,
    ensures
        params_of_rows(rows) == params_of_rows(rows.take(i)),
    decreases rows.len() - i,
{
    if i < rows.len() {
        assert(rows.take(i + 1).drop_last() =~= rows.take(i));
        lemma_params_err_persists(rows, i + 1);
    } else {
        assert(rows.take(i) =~= rows);
    }
}

/// Decodes every row of a table into a field, with set semantics: an exact
/// duplicate of an earlier field adds nothing.
pub fn fields_from_rows(rows: &Vec<TableRow>) -> (r: Result<Vec<Field>, ParseError>)
    ensures
        match r {
            Ok(fs) => fields_of_rows(rows_view(rows@)) == Ok::<_, ErrorModel>(fields_view(fs@)),
            Err(e) => fields_of_rows(rows_view(rows@)) == Err::<Seq<FieldModel>, _>(e@),
        },
{
    let mut out: Vec<Field> = Vec::new();
    let mut i: usize = 0;
    proof {
        assert(fields_view(out@) =~= Seq::<FieldModel>::empty());
        assert(rows_view(rows@).take(0) =~= Seq::<RowModel>::empty());
    }
    while i < rows.len()
        invariant
            i <= rows@.len(),
            fields_of_rows(rows_view(rows@).take(i as int)) == Ok::<_, ErrorModel>(
                fields_view(out@),
            ),
        decreases rows@.len() - i,
    {
        proof {
            assert(rows_view(rows@).take(i + 1).drop_last() =~= rows_view(rows@).take(i as int));
            assert(rows_view(rows@).take(i + 1).last() == rows@[i as int]@);
        }
        match field_from_row(&rows[i]) {
            Ok(f) => {
                if !fields_contain(&out, &f) {
                    let ghost prev = out@;
                    out.push(f);
                    proof {
                        assert(fields_view(out@) =~= fields_view(prev).push(
                            fields_view(out@).last(),
                        ));
                    }
                }
            },
            Err(e) => {
                proof {
                    lemma_fields_err_persists(rows_view(rows@), i + 1);
                }
                return Err(e);
            },
        }
        i += 1;
    }
    proof {
        assert(rows_view(rows@).take(rows@.len() as int) =~= rows_view(rows@));
    }
    Ok(out)
}

/// Decodes every row of a table into a parameter, keeping row order.
pub fn params_from_rows(rows: &Vec<TableRow>) -> (r: Result<Vec<Parameter>, ParseError>)
    ensures
        match r {
            Ok(ps) => params_of_rows(rows_view(rows@)) == Ok::<_, ErrorModel>(
                parameters_view(ps@),
            ),
            Err(e) => params_of_rows(rows_view(rows@)) == Err::<Seq<ParameterModel>, _>(e@),
        },
{
    let mut out: Vec<Parameter> = Vec::new();
    let mut i: usize = 0;
    proof {
        assert(parameters_view(out@) =~= Seq::<ParameterModel>::empty());
        assert(rows_view(rows@).take(0) =~= Seq::<RowModel>::empty());
    }
    while i < rows.len()
        invariant
            i <= rows@.len(),
            params_of_rows(rows_view(rows@).take(i as int)) == Ok::<_, ErrorModel>(
                parameters_view(out@),
            ),
        decreases rows@.len() - i,
    {
        proof {
            assert(rows_view(rows@).take(i + 1).drop_last() =~= rows_view(rows@).take(i as int));
            assert(rows_view(rows@).take(i + 1).last() == rows@[i as int]@);
        }
        match param_from_row(&rows[i]) {
            Ok(p) => {
                let ghost prev = out@;
                out.push(p);
                proof {
                    assert(parameters_view(out@) =~= parameters_view(prev).push(
                        parameters_view(out@).last(),
                    ));
                }
            },
            Err(e) => {
                proof {
                    lemma_params_err_persists(rows_view(rows@), i + 1);
                }
                return Err(e);
            },
        }
        i += 1;
    }
    proof {
        assert(rows_view(rows@).take(rows@.len() as int) =~= rows_view(rows@));
    }
    Ok(out)
}

/// Turns the items of an enum-like list into fields.
pub fn fields_from_items(items: &Vec<String>) -> (r: Vec<Field>)
    ensures
        fields_view(r@) == fields_of_items(strings_view(items@)),
{
    let mut out: Vec<Field> = Vec::new();
    let mut i: usize = 0;
    proof {
        assert(fields_view(out@) =~= fields_of_items(strings_view(items@).take(0)));
    }
    while i < items.len()
        invariant
            i <= items@.len(),
            out@.len() == i,
            fields_view(out@) == fields_of_items(strings_view(items@).take(i as int)),
        decreases items@.len() - i,
    {
        let name: String = items[i].clone();
        let ty: String = items[i].clone();
        out.push(Field { name, ty, optional: false, description: String::new() });
        proof {
            assert(strings_view(items@).take(i + 1).drop_last() =~= strings_view(items@).take(
                i as int,
            ));
            assert(strings_view(items@).take(i + 1).last() == items@[i as int]@);
            assert(out@[i as int]@ == (FieldModel {
                name: items@[i as int]@,
                ty: items@[i as int]@,
                optional: false,
                description: Seq::empty(),
            }));
            assert(fields_view(out@) =~= fields_of_items(strings_view(items@).take(i + 1)));
        }
        i += 1;
    }
    proof {
        assert(strings_view(items@).take(items@.len() as int) =~= strings_view(items@));
    }
    out
}

/// Turns the items of a list under a method heading into parameters.
pub fn params_from_items(items: &Vec<String>) -> (r: Vec<Parameter>)
    ensures
        parameters_view(r@) == params_of_items(strings_view(items@)),
{
    let mut out: Vec<Parameter> = Vec::new();
    let mut i: usize = 0;
    proof {
        assert(parameters_view(out@) =~= params_of_items(strings_view(items@).take(0)));
    }
    while i < items.len()
        invariant
            i <= items@.len(),
            out@.len() == i,
            parameters_view(out@) == params_of_items(strings_view(items@).take(i as int)),
        decreases items@.len() - i,
    {
        let name: String = items[i].clone();
        let ty: String = items[i].clone();
        out.push(Parameter { name, ty, required: true, description: String::new() });
        proof {
            assert(strings_view(items@).take(i + 1).drop_last() =~= strings_view(items@).take(
                i as int,
            ));
            assert(strings_view(items@).take(i + 1).last() == items@[i as int]@);
            assert(out@[i as int]@ == (ParameterModel {
                name: items@[i as int]@,
                ty: items@[i as int]@,
                required: true,
                description: Seq::empty(),
            }));
            assert(parameters_view(out@) =~= params_of_items(strings_view(items@).take(i + 1)));
        }
        i += 1;
    }
    proof {
        assert(strings_view(items@).take(items@.len() as int) =~= strings_view(items@));
    }
    out
}

proof fn lemma_type_fold_err_persists(bs: Seq<BlockModel>, i: int)
    requires
        0 <= i <= bs.len(),
        type_fold(bs.take(i)) is Err,
    ensures
        type_fold(bs) == type_fold(bs.take(i)),
    decreases bs.len() - i,
{
    if i < bs.len() {
        assert(bs.take(i + 1).drop_last() =~= bs.take(i));
        lemma_type_fold_err_persists(bs, i + 1);
    } else {
        assert(bs.take(i) =~= bs);
    }
}

proof fn lemma_method_fold_err_persists(bs: Seq<BlockModel>, i: int)
    requires
        0 <= i <= bs.len(),
        method_fold(bs.take(i)) is Err,
    ensures
        method_fold(bs) == method_fold(bs.take(i)),
    decreases bs.len() - i,
{
    if i < bs.len() {
        assert(bs.take(i + 1).drop_last() =~= bs.take(i));
        lemma_method_fold_err_persists(bs, i + 1);
    } else {
        assert(bs.take(i) =~= bs);
    }
}

/// Adds a type declaration unless an equal one is already held.
fn push_type_unique(acc: &mut Vec<Type>, t: Type)
    ensures
        types_view(final(acc)@) == push_unique_type(types_view(old(acc)@), t@),
{
    let ghost tm = t@;
    if !types_contain(acc, &t) {
        let ghost prev = acc@;
        acc.push(t);
        proof {
            assert(types_view(acc@) =~= types_view(prev).push(tm));
        }
    }
}

/// Adds a method declaration unless an equal one is already held.
fn push_method_unique(acc: &mut Vec<Method>, m: Method)
    ensures
        methods_view(final(acc)@) == push_unique_method(methods_view(old(acc)@), m@),
{
    let ghost mm = m@;
    if !methods_contain(acc, &m) {
        let ghost prev = acc@;
        acc.push(m);
        proof {
            assert(methods_view(acc@) =~= methods_view(prev).push(mm));
        }
    }
}

/// The type-extraction pass: one linear scan over the classified blocks,
/// returning every type declaration the page describes, or the pass's
/// first failure.
pub fn parse_types(blocks: &Vec<Block>) -> (r: Result<Vec<Type>, ParseError>)
    ensures
        match r {
            Ok(ts) => types_of_blocks(blocks_view(blocks@)) == Ok::<_, ErrorModel>(
                types_view(ts@),
            ),
            Err(e) => types_of_blocks(blocks_view(blocks@)) == Err::<Seq<TypeModel>, _>(e@),
        },
{
    let mut prev: ScanKind = ScanKind::Start;
    let mut name: String = String::new();
    let mut desc: String = String::new();
    let mut shape_taken: bool = false;
    let mut acc: Vec<Type> = Vec::new();
    let mut i: usize = 0;
    proof {
        assert(blocks_view(blocks@).take(0) =~= Seq::<BlockModel>::empty());
        assert(types_view(acc@) =~= Seq::<TypeModel>::empty());
    }
    while i < blocks.len()
        invariant
            i <= blocks@.len(),
            type_fold(blocks_view(blocks@).take(i as int)) == Ok::<_, ErrorModel>(
                (
                    ScanModel { prev, name: name@, desc: desc@, shape_taken },
                    types_view(acc@),
                ),
            ),
        decreases blocks@.len() - i,
    {
        proof {
            assert(blocks_view(blocks@).take(i + 1).drop_last() =~= blocks_view(blocks@).take(
                i as int,
            ));
            assert(blocks_view(blocks@).take(i + 1).last() == blocks@[i as int]@);
        }
        match &blocks[i] {
            Block::Heading { text } => {
                let finalize: bool = match prev {
                    ScanKind::Paragraph => true,
                    _ => false,
                };
                if finalize && head_is_upper(name.as_str()) {
                    let t = Type { name: name.clone(), description: desc.clone(), fields: Vec::new() };
                    proof {
                        assert(t@.fields =~= Seq::<FieldModel>::empty());
                    }
                    push_type_unique(&mut acc, t);
                }
                name = text.clone();
                desc = String::new();
                prev = ScanKind::Heading;
                shape_taken = false;
            },
            Block::Paragraph { text } => {
                desc = text.clone();
                prev = ScanKind::Paragraph;
            },
            Block::FieldTable { rows } => {
                if head_is_upper(name.as_str()) {
                    if shape_taken {
                        let e = ParseError::AmbiguousShape { name: name.clone() };
                        proof {
                            assert(type_fold(blocks_view(blocks@).take(i + 1)) == Err::<
                                (ScanModel, Seq<TypeModel>),
                                _,
                            >(e@));
                            lemma_type_fold_err_persists(blocks_view(blocks@), i + 1);
                        }
                        return Err(e);
                    }
                    match fields_from_rows(rows) {
                        Ok(fs) => {
                            let t = Type {
                                name: name.clone(),
                                description: desc.clone(),
                                fields: fs,
                            };
                            push_type_unique(&mut acc, t);
                            prev = ScanKind::Table;
                            shape_taken = true;
                        },
                        Err(e) => {
                            proof {
                                assert(type_fold(blocks_view(blocks@).take(i + 1)) == Err::<
                                    (ScanModel, Seq<TypeModel>),
                                    _,
                                >(e@));
                                lemma_type_fold_err_persists(blocks_view(blocks@), i + 1);
                            }
                            return Err(e);
                        },
                    }
                } else {
                    prev = ScanKind::Table;
                }
            },
            Block::ItemList { items } => {
                if head_is_upper(name.as_str()) {
                    if shape_taken {
                        let e = ParseError::AmbiguousShape { name: name.clone() };
                        proof {
                            assert(type_fold(blocks_view(blocks@).take(i + 1)) == Err::<
                                (ScanModel, Seq<TypeModel>),
                                _,
                            >(e@));
                            lemma_type_fold_err_persists(blocks_view(blocks@), i + 1);
                        }
                        return Err(e);
                    }
                    let fs: Vec<Field> = fields_from_items(items);
                    let t = Type { name: name.clone(), description: desc.clone(), fields: fs };
                    push_type_unique(&mut acc, t);
                    prev = ScanKind::List;
                    shape_taken = true;
                } else {
                    prev = ScanKind::List;
                }
            },
        }
        i += 1;
    }
    proof {
        assert(blocks_view(blocks@).take(blocks@.len() as int) =~= blocks_view(blocks@));
    }
    let flush: bool = match prev {
        ScanKind::Paragraph => true,
        _ => false,
    };
    if flush && head_is_upper(name.as_str()) {
        let t = Type { name, description: desc, fields: Vec::new() };
        proof {
            assert(t@.fields =~= Seq::<FieldModel>::empty());
        }
        push_type_unique(&mut acc, t);
    }
    Ok(acc)
}

/// The method-extraction pass: the mirror image of the type pass, over the
/// same immutable block sequence.
pub fn parse_methods(blocks: &Vec<Block>) -> (r: Result<Vec<Method>, ParseError>)
    ensures
        match r {
            Ok(ms) => methods_of_blocks(blocks_view(blocks@)) == Ok::<_, ErrorModel>(
                methods_view(ms@),
            ),
            Err(e) => methods_of_blocks(blocks_view(blocks@)) == Err::<Seq<MethodModel>, _>(e@),
        },
{
    let mut prev: ScanKind = ScanKind::Start;
    let mut name: String = String::new();
    let mut desc: String = String::new();
    let mut shape_taken: bool = false;
    let mut acc: Vec<Method> = Vec::new();
    let mut i: usize = 0;
    proof {
        assert(blocks_view(blocks@).take(0) =~= Seq::<BlockModel>::empty());
        assert(methods_view(acc@) =~= Seq::<MethodModel>::empty());
    }
    while i < blocks.len()
        invariant
            i <= blocks@.len(),
            method_fold(blocks_view(blocks@).take(i as int)) == Ok::<_, ErrorModel>(
                (
                    ScanModel { prev, name: name@, desc: desc@, shape_taken },
                    methods_view(acc@),
                ),
            ),
        decreases blocks@.len() - i,
    {
        proof {
            assert(blocks_view(blocks@).take(i + 1).drop_last() =~= blocks_view(blocks@).take(
                i as int,
            ));
            assert(blocks_view(blocks@).take(i + 1).last() == blocks@[i as int]@);
        }
        match &blocks[i] {
            Block::Heading { text } => {
                let finalize: bool = match prev {
                    ScanKind::Paragraph => true,
                    _ => false,
                };
                if finalize && head_is_lower(name.as_str()) {
                    let m = Method {
                        name: name.clone(),
                        description: desc.clone(),
                        parameters: Vec::new(),
                    };
                    proof {
                        assert(m@.parameters =~= Seq::<ParameterModel>::empty());
                    }
                    push_method_unique(&mut acc, m);
                }
                name = text.clone();
                desc = String::new();
                prev = ScanKind::Heading;
                shape_taken = false;
            },
            Block::Paragraph { text } => {
                desc = text.clone();
                prev = ScanKind::Paragraph;
            },
            Block::FieldTable { rows } => {
                if head_is_lower(name.as_str()) {
                    if shape_taken {
                        let e = ParseError::AmbiguousShape { name: name.clone() };
                        proof {
                            assert(method_fold(blocks_view(blocks@).take(i + 1)) == Err::<
                                (ScanModel, Seq<MethodModel>),
                                _,
                            >(e@));
                            lemma_method_fold_err_persists(blocks_view(blocks@), i + 1);
                        }
                        return Err(e);
                    }
                    match params_from_rows(rows) {
                        Ok(ps) => {
                            let m = Method {
                                name: name.clone(),
                                description: desc.clone(),
                                parameters: ps,
                            };
                            push_method_unique(&mut acc, m);
                            prev = ScanKind::Table;
                            shape_taken = true;
                        },
                        Err(e) => {
                            proof {
                                assert(method_fold(blocks_view(blocks@).take(i + 1)) == Err::<
                                    (ScanModel, Seq<MethodModel>),
                                    _,
                                >(e@));
                                lemma_method_fold_err_persists(blocks_view(blocks@), i + 1);
                            }
                            return Err(e);
                        },
                    }
                } else {
                    prev = ScanKind::Table;
                }
            },
            Block::ItemList { items } => {
                if head_is_lower(name.as_str()) {
                    if shape_taken {
                        let e = ParseError::AmbiguousShape { name: name.clone() };
                        proof {
                            assert(method_fold(blocks_view(blocks@).take(i + 1)) == Err::<
                                (ScanModel, Seq<MethodModel>),
                                _,
                            >(e@));
                            lemma_method_fold_err_persists(blocks_view(blocks@), i + 1);
                        }
                        return Err(e);
                    }
                    let ps: Vec<Parameter> = params_from_items(items);
                    let m = Method {
                        name: name.clone(),
                        description: desc.clone(),
                        parameters: ps,
                    };
                    push_method_unique(&mut acc, m);
                    prev = ScanKind::List;
                    shape_taken = true;
                } else {
                    prev = ScanKind::List;
                }
            },
        }
        i += 1;
    }
    proof {
        assert(blocks_view(blocks@).take(blocks@.len() as int) =~= blocks_view(blocks@));
    }
    let flush: bool = match prev {
        ScanKind::Paragraph => true,
        _ => false,
    };
    if flush && head_is_lower(name.as_str()) {
        let m = Method { name, description: desc, parameters: Vec::new() };
        proof {
            assert(m@.parameters =~= Seq::<ParameterModel>::empty());
        }
        push_method_unique(&mut acc, m);
    }
    Ok(acc)
}

/// Runs both extraction passes over one classified block sequence and
/// joins their results; either pass's failure fails the whole parse, the
/// type pass's first.
pub fn parse_api(blocks: &Vec<Block>) -> (r: Result<(Vec<Type>, Vec<Method>), ParseError>)
    ensures
        match r {
            Ok(p) => types_of_blocks(blocks_view(blocks@)) == Ok::<_, ErrorModel>(
                types_view(p.0@),
            ) && methods_of_blocks(blocks_view(blocks@)) == Ok::<_, ErrorModel>(
                methods_view(p.1@),
            ),
            Err(e) => types_of_blocks(blocks_view(blocks@)) == Err::<Seq<TypeModel>, _>(e@) || (
            types_of_blocks(blocks_view(blocks@)) is Ok && methods_of_blocks(blocks_view(blocks@))
                == Err::<Seq<MethodModel>, _>(e@)),
        },
{
    let types: Vec<Type> = match parse_types(blocks) {
        Ok(ts) => ts,
        Err(e) => {
            return Err(e);
        },
    };
    let methods: Vec<Method> = match parse_methods(blocks) {
        Ok(ms) => ms,
        Err(e) => {
            return Err(e);
        },
    };
    Ok((types, methods))
}

proof fn lemma_type_fold_upper(bs: Seq<BlockModel>, k: int)
    requires
        type_fold(bs) is Ok,
        0 <= k < type_fold(bs)->Ok_0.1.len(),
    ensures
        upper_led(type_fold(bs)->Ok_0.1[k].name),
    decreases bs.len(),
{
    if bs.len() > 0 {
        let st = type_fold(bs.drop_last())->Ok_0.0;
        let acc = type_fold(bs.drop_last())->Ok_0.1;
        if k < acc.len() {
            lemma_type_fold_upper(bs.drop_last(), k);
            assert(type_fold(bs)->Ok_0.1[k] == acc[k]);
        }
    }
}

/// Every type declaration the pass extracts bears a capital-led name: a
/// heading whose text starts with a small letter (or no letter) is never
/// classified as a type declaration, whatever blocks follow it.
pub proof fn lemma_types_upper_led(bs: Seq<BlockModel>, ts: Seq<TypeModel>)
    requires
        types_of_blocks(bs) == Ok::<_, ErrorModel>(ts),
    ensures
        forall|k: int| 0 <= k < ts.len() ==> upper_led(#[trigger] ts[k].name),
{
    let st = type_fold(bs)->Ok_0.0;
    let acc = type_fold(bs)->Ok_0.1;
    assert forall|k: int| 0 <= k < ts.len() implies upper_led(#[trigger] ts[k].name) by {
        if k < acc.len() {
            lemma_type_fold_upper(bs, k);
            assert(ts[k] == acc[k]);
        } else {
            // the one element past the fold's collection is the flushed
            // declaration, whose name passed the capital-letter test
            assert(ts[k] == (TypeModel {
                name: st.name,
                description: st.desc,
                fields: Seq::empty(),
            }));
        }
    }
}

/// Two headings with a qualifying paragraph between them and no
/// shape-bearing block produce exactly one field-less type: the first
/// heading's declaration is finalized the moment the scan reaches the
/// second heading, whatever that second heading's own case is.
pub proof fn lemma_heading_pair_one_type(a: Seq<char>, d: Seq<char>, b: Seq<char>)
    requires
        upper_led(a),
    ensures
        types_of_blocks(
            seq![
                BlockModel::Heading { text: a },
                BlockModel::Paragraph { text: d },
                BlockModel::Heading { text: b },
            ],
        ) == Ok::<_, ErrorModel>(
            seq![TypeModel { name: a, description: d, fields: Seq::empty() }],
        ),
{
    let bs = seq![
        BlockModel::Heading { text: a },
        BlockModel::Paragraph { text: d },
        BlockModel::Heading { text: b },
    ];
    let one = seq![BlockModel::Heading { text: a }];
    let two = seq![BlockModel::Heading { text: a }, BlockModel::Paragraph { text: d }];
    assert(one.drop_last() =~= Seq::<BlockModel>::empty());
    assert(two.drop_last() =~= one);
    assert(bs.drop_last() =~= two);
    let t = TypeModel { name: a, description: d, fields: Seq::empty() };
    assert(!Seq::<TypeModel>::empty().contains(t));
    assert(type_fold(Seq::<BlockModel>::empty()) == Ok::<_, ErrorModel>(
        (scan_init(), Seq::<TypeModel>::empty()),
    ));
    let st1 = ScanModel {
        prev: ScanKind::Heading,
        name: a,
        desc: Seq::empty(),
        shape_taken: false,
    };
    assert(one.last() == (BlockModel::Heading { text: a }));
    assert(type_fold(one) == Ok::<_, ErrorModel>((st1, Seq::<TypeModel>::empty())));
    let st2 = ScanModel { prev: ScanKind::Paragraph, name: a, desc: d, shape_taken: false };
    assert(two.last() == (BlockModel::Paragraph { text: d }));
    assert(type_fold(two) == Ok::<_, ErrorModel>((st2, Seq::<TypeModel>::empty())));
    let st3 = ScanModel {
        prev: ScanKind::Heading,
        name: b,
        desc: Seq::empty(),
        shape_taken: false,
    };
    assert(bs.last() == (BlockModel::Heading { text: b }));
    assert(type_fold(bs) == Ok::<_, ErrorModel>((st3, Seq::<TypeModel>::empty().push(t))));
    assert(Seq::<TypeModel>::empty().push(t) =~= seq![t]);
}

proof fn lemma_method_fold_lower(bs: Seq<BlockModel>, k: int)
    requires
        method_fold(bs) is Ok,
        0 <= k < method_fold(bs)->Ok_0.1.len(),
    ensures
        lower_led(method_fold(bs)->Ok_0.1[k].name),
    decreases bs.len(),
{
    if bs.len() > 0 {
        let st = method_fold(bs.drop_last())->Ok_0.0;
        let acc = method_fold(bs.drop_last())->Ok_0.1;
        if k < acc.len() {
            lemma_method_fold_lower(bs.drop_last(), k);
            assert(method_fold(bs)->Ok_0.1[k] == acc[k]);
        }
    }
}

/// Every method declaration the pass extracts bears a small-led name: the
/// mirror image of the rule for types.
pub proof fn lemma_methods_lower_led(bs: Seq<BlockModel>, ms: Seq<MethodModel>)
    requires
        methods_of_blocks(bs) == Ok::<_, ErrorModel>(ms),
    ensures
        forall|k: int| 0 <= k < ms.len() ==> lower_led(#[trigger] ms[k].name),
{
    let st = method_fold(bs)->Ok_0.0;
    let acc = method_fold(bs)->Ok_0.1;
    assert forall|k: int| 0 <= k < ms.len() implies lower_led(#[trigger] ms[k].name) by {
        if k < acc.len() {
            lemma_method_fold_lower(bs, k);
            assert(ms[k] == acc[k]);
        } else {
            assert(ms[k] == (MethodModel {
                name: st.name,
                description: st.desc,
                parameters: Seq::empty(),
            }));
        }
    }
}

} // verus!
