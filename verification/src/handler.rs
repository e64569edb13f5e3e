//! The callback registration descriptor handed to the foreign parser.
//!
//! The foreign parser takes a table of optional callback slots; a slot that
//! is left unset is simply never invoked. This module fixes, as a verified
//! value, which slots the bridge registers. The boundary that turns each
//! registered slot into an actual function pointer lives outside this crate
//! and follows this descriptor field by field.

#![allow(non_camel_case_types)]
#![allow(non_snake_case)]

use vstd::prelude::*;

verus! {

/// Marker constant that the foreign parser expects in the `initialized`
/// field of a callback table built for its second-generation interface.
pub const XML_SAX2_MAGIC: u32 = 0xDEEDBEAF;

/// A callback table for the foreign parser, with one field per callback
/// slot. A field is `true` exactly when the bridge registers a handler for
/// that slot.
#[derive(Clone, Copy, Debug, PartialEq, Eq, Structural)]
pub struct xmlSAXHandler {
    pub internalSubset: bool,
    pub isStandalone: bool,
    pub hasInternalSubset: bool,
    pub hasExternalSubset: bool,
    pub resolveEntity: bool,
    pub getEntity: bool,
    pub entityDecl: bool,
    pub notationDecl: bool,
    pub attributeDecl: bool,
    pub elementDecl: bool,
    pub unparsedEntityDecl: bool,
    pub setDocumentLocator: bool,
    pub startDocument: bool,
    pub endDocument: bool,
    pub startElement: bool,
    pub endElement: bool,
    pub reference: bool,
    pub characters: bool,
    pub ignorableWhitespace: bool,
    pub processingInstruction: bool,
    pub comment: bool,
    pub warning: bool,
    pub error: bool,
    pub fatalError: bool,
    pub getParameterEntity: bool,
    pub cdataBlock: bool,
    pub externalSubset: bool,
    pub initialized: u32,
    pub startElementNs: bool,
    pub endElementNs: bool,
    pub serror: bool,
}

/// The callback table the bridge registers: the structural slots (document
/// and element boundaries, character data, comments, CDATA) plus the
/// structured error slot. Whitespace the grammar considers ignorable is
/// reported through the dedicated slot only when asked for; otherwise that
/// slot stays unset and such runs arrive as ordinary character data. The
/// unstructured `warning`, `error` and `fatalError` slots stay unset in
/// favour of `serror`.
pub open spec fn spec_handler(ignorable_whitespace: bool) -> xmlSAXHandler {
    xmlSAXHandler {
        internalSubset: false,
        isStandalone: false,
        hasInternalSubset: false,
        hasExternalSubset: false,
        resolveEntity: false,
        getEntity: false,
        entityDecl: false,
        notationDecl: false,
        attributeDecl: false,
        elementDecl: false,
        unparsedEntityDecl: false,
        setDocumentLocator: false,
        startDocument: true,
        endDocument: true,
        startElement: true,
        endElement: true,
        reference: false,
        characters: true,
        ignorableWhitespace: ignorable_whitespace,
        processingInstruction: false,
        comment: true,
        warning: false,
        error: false,
        fatalError: false,
        getParameterEntity: false,
        cdataBlock: true,
        externalSubset: false,
        initialized: XML_SAX2_MAGIC,
        startElementNs: false,
        endElementNs: false,
        serror: true,
    }
}

/// Builds the callback table the bridge registers by default: ignorable
/// whitespace is folded into ordinary character data.
pub fn new_handler() -> (r: xmlSAXHandler)
    ensures
        r == spec_handler(false),
{
    new_handler_with(false)
}

/// Builds the callback table the bridge registers, choosing whether runs of
/// ignorable whitespace are reported as events of their own (`true`) or left
/// to arrive as ordinary character data (`false`).
pub fn new_handler_with(ignorable_whitespace: bool) -> (r: xmlSAXHandler)
    ensures
        r == spec_handler(ignorable_whitespace),
{
    xmlSAXHandler {
        internalSubset: false,
        isStandalone: false,
        hasInternalSubset: false,
        hasExternalSubset: false,
        resolveEntity: false,
        getEntity: false,
        entityDecl: false,
        notationDecl: false,
        attributeDecl: false,
        elementDecl: false,
        unparsedEntityDecl: false,
        setDocumentLocator: false,
        startDocument: true,
        endDocument: true,
        startElement: true,
        endElement: true,
        reference: false,
        characters: true,
        ignorableWhitespace: ignorable_whitespace,
        processingInstruction: false,
        comment: true,
        warning: false,
        error: false,
        fatalError: false,
        getParameterEntity: false,
        cdataBlock: true,
        externalSubset: false,
        initialized: XML_SAX2_MAGIC,
        startElementNs: false,
        endElementNs: false,
        serror: true,
    }
}

} // verus!
