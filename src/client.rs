//! The frame a client sends over its socket, and how its routing mode is resolved.

use crate::json::{draft_message, envelope_text, json_string, json_text, text_eq};
use crate::messages::{Mode, ModeView};
use vstd::prelude::*;

verus! {

/// A frame from a client: `{"mode","vid","conn_id","status","message","attachments"}`.
#[derive(Clone, Debug)]
pub struct ClientMessage {
    pub mode: String,
    pub vid: String,
    pub conn_id: String,
    pub status: String,
    pub message: String,
    pub attachments: Vec<String>,
}

pub struct ClientMessageView {
    pub mode: Seq<char>,
    pub vid: Seq<char>,
    pub conn_id: Seq<char>,
    pub status: Seq<char>,
    pub message: Seq<char>,
    pub attachments: Seq<Seq<char>>,
}

impl View for ClientMessage {
    type V = ClientMessageView;

    open spec fn view(&self) -> ClientMessageView {
        ClientMessageView {
            mode: self.mode@,
            vid: self.vid@,
            conn_id: self.conn_id@,
            status: self.status@,
            message: self.message@,
            attachments: self.attachments.deep_view(),
        }
    }
}

/// The error envelope for a frame whose mode is missing or unknown.
pub open spec fn unknown_mode_error(conn_id: Seq<char>) -> Seq<char> {
    envelope_text(
        "error"@,
        ""@,
        "Your message is missing or has an incorrect mode parameter"@,
        conn_id,
        ""@,
    )
}

/// The error envelope for a frame that lacks a field its mode requires.
pub open spec fn missing_field_error(conn_id: Seq<char>) -> Seq<char> {
    envelope_text(
        "error"@,
        ""@,
        "Your message is missing one or more parameters required for the given mode"@,
        conn_id,
        ""@,
    )
}

/// The routing mode of a frame, or the error envelope sent back to its sender.
pub open spec fn resolve_mode(m: ClientMessageView) -> Result<ModeView, Seq<char>> {
    let filled = m.status.len() > 0 && m.conn_id.len() > 0 && m.message.len() > 0;
    if m.mode == "broadcast"@ {
        if m.status.len() > 0 && m.message.len() > 0 {
            Ok(ModeView::Broadcast)
        } else {
            Err(missing_field_error(m.conn_id))
        }
    } else if m.mode == "whisper"@ {
        if filled {
            Ok(ModeView::Whisper(m.conn_id))
        } else {
            Err(missing_field_error(m.conn_id))
        }
    } else if m.mode == "action"@ {
        if filled {
            Ok(ModeView::Action)
        } else {
            Err(missing_field_error(m.conn_id))
        }
    } else if m.mode == "request"@ {
        if filled {
            Ok(ModeView::Request)
        } else {
            Err(missing_field_error(m.conn_id))
        }
    } else {
        Err(unknown_mode_error(m.conn_id))
    }
}

/// The JSON array of strings `items`, without its brackets.
pub open spec fn json_list_body(items: Seq<Seq<char>>) -> Seq<char>
    decreases items.len(),
{
    if items.len() == 0 {
        Seq::empty()
    } else if items.len() == 1 {
        json_text(items[0])
    } else {
        json_list_body(items.drop_last()) + ","@ + json_text(items.last())
    }
}

/// The text a frame is relayed as.
pub open spec fn client_message_text(m: ClientMessageView) -> Seq<char> {
    "{\"mode\":"@ + json_text(m.mode) + ",\"conn_id\":"@ + json_text(m.conn_id) + ",\"vid\":"@
        + json_text(m.vid) + ",\"status\":"@ + json_text(m.status) + ",\"message\":"@ + json_text(
        m.message,
    ) + ",\"attachments\":["@ + json_list_body(m.attachments) + "]}"@
}

impl ClientMessage {
    /// The frame as the JSON text that is relayed to its recipients.
    pub fn to_string(&self) -> (r: String)
        ensures
            r@ == client_message_text(self@),
    {
        let mut out = String::from_str("{\"mode\":");
        out.append(json_string(self.mode.as_str()).as_str());
        out.append(",\"conn_id\":");
        out.append(json_string(self.conn_id.as_str()).as_str());
        out.append(",\"vid\":");
        out.append(json_string(self.vid.as_str()).as_str());
        out.append(",\"status\":");
        out.append(json_string(self.status.as_str()).as_str());
        out.append(",\"message\":");
        out.append(json_string(self.message.as_str()).as_str());
        out.append(",\"attachments\":[");
        let ghost head = out@;
        let mut i: usize = 0;
        while i < self.attachments.len()
            invariant
                i <= self.attachments.len(),
                out@ == head + json_list_body(self@.attachments.take(i as int)),
            decreases self.attachments.len() - i,
        {
            if i > 0 {
                out.append(",");
            }
            out.append(json_string(self.attachments[i].as_str()).as_str());
            proof {
                let items = self@.attachments.take(i as int + 1);
                assert(items.drop_last() =~= self@.attachments.take(i as int));
                if i == 0 {
                    assert(self@.attachments.take(0) =~= Seq::<Seq<char>>::empty());
                }
            }
            i = i + 1;
        }
        assert(self@.attachments.take(i as int) =~= self@.attachments);
        out.append("]}");
        out
    }

    /// Resolves the routing mode from the `mode` field, checking that the fields
    /// it requires are not empty.
    pub fn get_mode(&self) -> (r: Result<Mode, String>)
        ensures
            match (r, resolve_mode(self@)) {
                (Ok(m), Ok(v)) => m@ == v,
                (Err(e), Err(v)) => e@ == v,
                _ => false,
            },
    {
        let filled = !self.status.as_str().is_empty() && !self.conn_id.as_str().is_empty()
            && !self.message.as_str().is_empty();
        let missing = "Your message is missing one or more parameters required for the given mode";
        if text_eq(self.mode.as_str(), "broadcast") {
            if !self.status.as_str().is_empty() && !self.message.as_str().is_empty() {
                Ok(Mode::Broadcast)
            } else {
                Err(draft_message("error", "", missing, self.conn_id.as_str(), ""))
            }
        } else if text_eq(self.mode.as_str(), "whisper") {
            if filled {
                Ok(Mode::Whisper(self.conn_id.clone()))
            } else {
                Err(draft_message("error", "", missing, self.conn_id.as_str(), ""))
            }
        } else if text_eq(self.mode.as_str(), "action") {
            if filled {
                Ok(Mode::Action)
            } else {
                Err(draft_message("error", "", missing, self.conn_id.as_str(), ""))
            }
        } else if text_eq(self.mode.as_str(), "request") {
            if filled {
                Ok(Mode::Request)
            } else {
                Err(draft_message("error", "", missing, self.conn_id.as_str(), ""))
            }
        } else {
            Err(
                draft_message(
                    "error",
                    "",
                    "Your message is missing or has an incorrect mode parameter",
                    self.conn_id.as_str(),
                    "",
                ),
            )
        }
    }
}

} // verus!
