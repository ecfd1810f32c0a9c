//! Extraction of a machine-readable schema from one HTML documentation page.
//!
//! The crate consumes a document tree of plain values (tag names, attribute
//! values, rendered text) and produces the set of type and method
//! declarations that the page describes.  Fetching the page and turning the
//! raw markup into the plain tree are the callers' work.

pub mod blocks;
pub mod builder;
pub mod dom;
pub mod error;
pub mod norm;
pub mod schema;
pub mod text;

use vstd::prelude::*;

use crate::blocks::{Block, blocks_view, classify, classify_seq};
use crate::builder::{methods_of_blocks, parse_api, types_of_blocks};
use crate::dom::{DomNode, find_content_region, first_marked, has_marker};
use crate::error::{ErrorModel, ParseError};
use crate::schema::{Method, Type, methods_view, types_view};

verus! {

/// Classifies the page: locates the content region by its fixed marker and
/// returns the classified blocks of its children, in document order.  A
/// document without the marker fails, and with it the whole parse.
pub fn extract_blocks(root: &DomNode) -> (r: Result<Vec<Block>, ParseError>)
    ensures
        match r {
            Ok(bs) => has_marker(*root) && blocks_view(bs@) == classify_seq(
                first_marked(*root)->Some_0.children@,
            ),
            Err(e) => !has_marker(*root) && e@ == ErrorModel::StructureNotFound,
        },
{
    match find_content_region(root) {
        Some(region) => Ok(classify(region)),
        None => Err(ParseError::StructureNotFound),
    }
}

/// The whole pipeline over one document tree: classify the content region's
/// children, then run the two extraction passes and join them.  The caller
/// receives the full schema or the parse's first failure — never a partial
/// result.
pub fn parse_document(root: &DomNode) -> (r: Result<(Vec<Type>, Vec<Method>), ParseError>)
    ensures
        !has_marker(*root) ==> (r matches Err(e) && e@ == ErrorModel::StructureNotFound),
        has_marker(*root) ==> ({
            let bs = classify_seq(first_marked(*root)->Some_0.children@);
            match r {
                Ok(p) => types_of_blocks(bs) == Ok::<_, ErrorModel>(types_view(p.0@))
                    && methods_of_blocks(bs) == Ok::<_, ErrorModel>(methods_view(p.1@)),
                Err(e) => types_of_blocks(bs) == Err::<Seq<crate::schema::TypeModel>, _>(e@) || (
                types_of_blocks(bs) is Ok && methods_of_blocks(bs) == Err::<
                    Seq<crate::schema::MethodModel>,
                    _,
                >(e@)),
            }
        }),
{
    let blocks: Vec<Block> = match extract_blocks(root) {
        Ok(bs) => bs,
        Err(e) => {
            return Err(e);
        },
    };
    parse_api(&blocks)
}

} // verus!
