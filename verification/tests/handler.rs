//! The callback table the bridge registers, and event rendering.

use sax::handler::{new_handler, new_handler_with, XML_SAX2_MAGIC};
use sax::{Attribute, Attributes, ParseEvent};

#[test]
fn default_handler_registers_the_structural_slots() {
    let h = new_handler();
    assert!(h.startDocument);
    assert!(h.endDocument);
    assert!(h.startElement);
    assert!(h.endElement);
    assert!(h.characters);
    assert!(h.comment);
    assert!(h.cdataBlock);
    assert!(h.serror);
}

#[test]
fn default_handler_leaves_the_other_slots_unset() {
    let h = new_handler();
    assert!(!h.internalSubset);
    assert!(!h.isStandalone);
    assert!(!h.hasInternalSubset);
    assert!(!h.hasExternalSubset);
    assert!(!h.resolveEntity);
    assert!(!h.getEntity);
    assert!(!h.entityDecl);
    assert!(!h.notationDecl);
    assert!(!h.attributeDecl);
    assert!(!h.elementDecl);
    assert!(!h.unparsedEntityDecl);
    assert!(!h.setDocumentLocator);
    assert!(!h.reference);
    assert!(!h.ignorableWhitespace);
    assert!(!h.processingInstruction);
    assert!(!h.warning);
    assert!(!h.error);
    assert!(!h.fatalError);
    assert!(!h.getParameterEntity);
    assert!(!h.externalSubset);
    assert!(!h.startElementNs);
    assert!(!h.endElementNs);
}

#[test]
fn handler_carries_the_expected_marker() {
    assert_eq!(new_handler().initialized, XML_SAX2_MAGIC);
    assert_eq!(new_handler().initialized, 0xDEEDBEAF);
}

#[test]
fn whitespace_slot_follows_the_option() {
    assert!(!new_handler_with(false).ignorableWhitespace);
    assert!(new_handler_with(true).ignorableWhitespace);
    let with = new_handler_with(true);
    let without = new_handler();
    // The option changes that slot and nothing else.
    assert!(with.startDocument == without.startDocument);
    assert!(with.serror == without.serror);
    assert!(with.initialized == without.initialized);
}

#[test]
fn events_render_in_source_shape() {
    assert_eq!(ParseEvent::StartDocument.to_text(), "START DOCUMENT");
    assert_eq!(ParseEvent::EndDocument.to_text(), "END DOCUMENT");
    let open = ParseEvent::StartElement(
        "a".to_string(),
        Attributes(vec![Attribute { name: "foo".to_string(), value: "bar".to_string() }]),
    );
    assert_eq!(open.to_text(), "<a foo=\"bar\">");
    assert_eq!(ParseEvent::EndElement("a".to_string()).to_text(), "</a>");
    assert_eq!(ParseEvent::Characters("test".to_string()).to_text(), "test");
    assert_eq!(ParseEvent::Comment(" note ".to_string()).to_text(), "<!-- note -->");
    assert_eq!(ParseEvent::CdataBlock("1 < 2".to_string()).to_text(), "<![CDATA[1 < 2]]>");
    assert_eq!(ParseEvent::IgnorableWhitespace("  ".to_string()).to_text(), "  ");
}
