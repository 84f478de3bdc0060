//! Messages as a queue delivers them.
use vstd::prelude::*;

use crate::string_map::StringMap;

verus! {

/// A message attribute as it comes in with a message.
#[derive(Debug)]
pub struct SqsMessageAttribute {
    pub string_value: Option<String>,
    pub binary_value: Option<Vec<u8>>,
    pub string_list_values: Vec<String>,
    pub binary_list_values: Vec<Vec<u8>>,
    pub data_type: Option<String>,
}

/// A message that a queue delivers, as far as replaying looks at it.
#[derive(Debug)]
pub struct SqsMessage {
    /// Identifier under which the message is reported as failed.
    pub message_id: Option<String>,
    pub body: Option<String>,
    /// System attributes, such as the trace header and the FIFO identifiers.
    pub attributes: StringMap<String>,
    /// Attributes that the sender of the message gave it.
    pub message_attributes: StringMap<SqsMessageAttribute>,
    /// ARN of the queue that delivers the message.
    pub event_source_arn: Option<String>,
}

/// What a [`SqsMessageAttribute`] holds.
pub struct AttributeView {
    pub string_value: Option<Seq<char>>,
    pub binary_value: Option<Seq<u8>>,
    pub string_list_values: Seq<Seq<char>>,
    pub binary_list_values: Seq<Seq<u8>>,
    pub data_type: Option<Seq<char>>,
}

/// What a [`SqsMessage`] holds.
pub struct MessageView {
    pub message_id: Option<Seq<char>>,
    pub body: Option<Seq<char>>,
    pub attributes: Map<Seq<char>, Seq<char>>,
    pub message_attributes: Map<Seq<char>, AttributeView>,
    pub event_source_arn: Option<Seq<char>>,
}

impl View for SqsMessageAttribute {
    type V = AttributeView;

    open spec fn view(&self) -> AttributeView {
        AttributeView {
            string_value: self.string_value.deep_view(),
            binary_value: self.binary_value.deep_view(),
            string_list_values: self.string_list_values.deep_view(),
            binary_list_values: self.binary_list_values.deep_view(),
            data_type: self.data_type.deep_view(),
        }
    }
}

impl DeepView for SqsMessageAttribute {
    type V = AttributeView;

    open spec fn deep_view(&self) -> AttributeView {
        self@
    }
}

impl View for SqsMessage {
    type V = MessageView;

    open spec fn view(&self) -> MessageView {
        MessageView {
            message_id: self.message_id.deep_view(),
            body: self.body.deep_view(),
            attributes: self.attributes.deep_view(),
            message_attributes: self.message_attributes.deep_view(),
            event_source_arn: self.event_source_arn.deep_view(),
        }
    }
}

impl DeepView for SqsMessage {
    type V = MessageView;

    open spec fn deep_view(&self) -> MessageView {
        self@
    }
}

/// An attribute is seen with all that it holds.
pub proof fn attribute_shows_all_it_holds(attribute: SqsMessageAttribute)
    ensures
        match attribute.string_value {
            Some(value) => attribute@.string_value == Some(value@),
            None => attribute@.string_value is None,
        },
        match attribute.binary_value {
            Some(value) => attribute@.binary_value is Some && attribute@.binary_value->0 =~= value@,
            None => attribute@.binary_value is None,
        },
        attribute@.string_list_values.len() == attribute.string_list_values@.len(),
        forall|i: int|
            0 <= i < attribute.string_list_values@.len() ==> (
            #[trigger] attribute@.string_list_values[i]) == attribute.string_list_values@[i]@,
        attribute@.binary_list_values.len() == attribute.binary_list_values@.len(),
        forall|i: int|
            0 <= i < attribute.binary_list_values@.len() ==> (
            #[trigger] attribute@.binary_list_values[i]) =~= attribute.binary_list_values@[i]@,
        match attribute.data_type {
            Some(data_type) => attribute@.data_type == Some(data_type@),
            None => attribute@.data_type is None,
        },
{
}

/// A message is seen with all that it holds.
pub proof fn message_shows_all_it_holds(message: SqsMessage, name: Seq<char>)
    ensures
        match message.message_id {
            Some(id) => message@.message_id == Some(id@),
            None => message@.message_id is None,
        },
        match message.body {
            Some(body) => message@.body == Some(body@),
            None => message@.body is None,
        },
        match message.event_source_arn {
            Some(arn) => message@.event_source_arn == Some(arn@),
            None => message@.event_source_arn is None,
        },
        message@.attributes.contains_key(name) <==> message.attributes@.contains_key(name),
        message.attributes@.contains_key(name) ==> message@.attributes[name]
            == message.attributes@[name]@,
        message@.message_attributes.contains_key(name)
            <==> message.message_attributes@.contains_key(name),
        message.message_attributes@.contains_key(name) ==> message@.message_attributes[name]
            == message.message_attributes@[name]@,
{
}

} // verus!
