//! The fields that are attached to a span or an event, as text.

use vstd::prelude::*;

verus! {

/// The contents of a [`FieldRecorder`].
pub struct RecorderView {
    /// The message.
    pub message: Option<Seq<char>>,
    /// The other fields.
    pub fields: Option<Seq<char>>,
}

/// The text of the message and of the other fields that were recorded.
pub struct FieldRecorder {
    message: Option<String>,
    fields: Option<String>,
}

/// The text in an optional string.
pub open spec fn optional_text(text: Option<String>) -> Option<Seq<char>> {
    match text {
        Some(text) => Some(text@),
        None => None,
    }
}

impl RecorderView {
    /// Nothing was recorded.
    pub open spec fn empty() -> RecorderView {
        RecorderView { message: None, fields: None }
    }

    /// The recorder after one more field was recorded: the message is replaced, any other field is
    /// appended.
    pub open spec fn recorded(self, name: Seq<char>, value: Seq<char>) -> RecorderView {
        if name == "message"@ {
            RecorderView { message: Some(value), ..self }
        } else {
            let field = name + "="@ + value;
            RecorderView {
                fields: Some(
                    match self.fields {
                        Some(fields) => fields + ", "@ + field,
                        None => field,
                    },
                ),
                ..self
            }
        }
    }

    /// The message followed by the other fields in brackets, or by a dot if there are none.
    pub open spec fn text(self) -> Seq<char> {
        (match self.message {
            Some(message) => message,
            None => Seq::empty(),
        }) + (match self.fields {
            Some(fields) => "("@ + fields + ")"@,
            None => "."@,
        })
    }
}

impl View for FieldRecorder {
    type V = RecorderView;

    closed spec fn view(&self) -> RecorderView {
        RecorderView {
            message: optional_text(self.message),
            fields: optional_text(self.fields),
        }
    }
}

impl FieldRecorder {
    /// Nothing was recorded.
    pub fn new() -> (recorder: Self)
        ensures
            recorder@ == RecorderView::empty(),
    {
        FieldRecorder { message: None, fields: None }
    }

    /// Replaces the message.
    pub fn set_message(&mut self, message: String)
        ensures
            final(self)@ == (RecorderView { message: Some(message@), ..old(self)@ }),
    {
        self.message = Some(message);
    }

    /// Records a field, given its name and the text of its value. The field with the name `message`
    /// is the message.
    pub fn record(&mut self, name: &str, value: String)
        ensures
            final(self)@ == old(self)@.recorded(name@, value@),
    {
        if name.to_owned() == "message".to_owned() {
            self.message = Some(value);
        } else {
            let mut fields = match self.fields.take() {
                Some(fields) => fields.concat(", ").concat(name),
                None => name.to_owned(),
            };
            fields.append("=");
            fields.append(value.as_str());
            assert(fields@ =~= old(self)@.recorded(name@, value@).fields->0);
            self.fields = Some(fields);
        }
    }

    /// The text of what was recorded.
    pub fn to_string(self) -> (text: String)
        ensures
            text@ == self@.text(),
    {
        let text = match (self.message, self.fields) {
            (Some(message), Some(fields)) => message.concat("(").concat(fields.as_str()).concat(
                ")",
            ),
            (Some(message), None) => message.concat("."),
            (None, Some(fields)) => "(".to_owned().concat(fields.as_str()).concat(")"),
            (None, None) => ".".to_owned(),
        };
        assert(text@ =~= self@.text());
        text
    }

    /// The text of what was recorded so far.
    pub fn fmt(&self) -> (text: String)
        ensures
            text@ == self@.text(),
    {
        let mut text = match &self.message {
            Some(message) => message.clone(),
            None => String::new(),
        };
        match &self.fields {
            Some(fields) => {
                text.append("(");
                text.append(fields.as_str());
                text.append(")");
            },
            None => text.append("."),
        }
        assert(text@ =~= self@.text());
        text
    }
}

} // verus!
