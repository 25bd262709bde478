//! The event-loop decisions around the state store: validating a submit,
//! marking loads and sends in flight, rolling them back when a request
//! cannot be handed to the backend, and reacting to backend errors. The
//! loop itself (channels, timers, drawing) lives outside the library and
//! only calls these transitions.

use vstd::prelude::*;
use vstd::string::StringExecFns;
use crate::state::AppState;
use crate::text::{trim_of, trimmed};

verus! {

/// Whether the error slot holds exactly the given text.
pub open spec fn error_is(e: Option<String>, msg: Seq<char>) -> bool {
    match e {
        Some(s) => s@ == msg,
        None => false,
    }
}

/// Whether `r` carries the given dialog and exactly the given text.
pub open spec fn send_payload_is(r: Option<(i64, String)>, id: i64, text: Seq<char>) -> bool {
    match r {
        Some(p) => p.0 == id && p.1@ == text,
        None => false,
    }
}

impl AppState {
    /// Start loading the selected dialog's transcript: mark the load in
    /// flight and name the dialog the backend must be asked for. Without
    /// a selection nothing happens.
    pub fn begin_load_selected_messages(&mut self) -> (r: Option<i64>)
        ensures
            match old(self).selected_dialog_id {
                Some(id) => r == Some(id) && *final(self) == (AppState {
                    is_loading_messages: true,
                    ..*old(self)
                }),
                None => r is None && *final(self) == *old(self),
            },
    {
        match self.selected_dialog_id {
            Some(id) => {
                self.is_loading_messages = true;
                Some(id)
            },
            None => None,
        }
    }

    /// A transcript request could not be handed to the backend: surface
    /// the error and roll the in-flight flag back.
    pub fn load_request_failed(&mut self, error: String)
        ensures
            *final(self) == (AppState {
                last_error: Some(error),
                is_loading_messages: false,
                ..*old(self)
            }),
    {
        self.last_error = Some(error);
        self.is_loading_messages = false;
    }

    /// Validate a submit. While a send is in flight nothing happens. A
    /// missing selection or blank compose text sets a local error and
    /// contacts nobody. Otherwise the send is marked in flight, the last
    /// error cleared, and the dialog id with the trimmed text returned.
    pub fn begin_send_message(&mut self) -> (r: Option<(i64, String)>)
        ensures
            old(self).is_sending_message ==> r is None && *final(self) == *old(self),
            !old(self).is_sending_message ==> match old(self).selected_dialog_id {
                None => {
                    &&& r is None
                    &&& error_is(final(self).last_error, "No chat selected"@)
                    &&& *final(self) == (AppState {
                        last_error: final(self).last_error,
                        ..*old(self)
                    })
                },
                Some(id) => {
                    if trim_of(old(self).compose_text@).len() == 0 {
                        &&& r is None
                        &&& error_is(final(self).last_error, "Message must not be empty"@)
                        &&& *final(self) == (AppState {
                            last_error: final(self).last_error,
                            ..*old(self)
                        })
                    } else {
                        &&& send_payload_is(r, id, trim_of(old(self).compose_text@))
                        &&& *final(self) == (AppState {
                            is_sending_message: true,
                            last_error: None,
                            ..*old(self)
                        })
                    }
                },
            },
    {
        if self.is_sending_message {
            return None;
        }
        let id = match self.selected_dialog_id {
            Some(id) => id,
            None => {
                self.last_error = Some(String::from_str("No chat selected"));
                return None;
            },
        };
        let text = trimmed(self.compose_text.as_str());
        if text.as_str().is_empty() {
            self.last_error = Some(String::from_str("Message must not be empty"));
            return None;
        }
        self.is_sending_message = true;
        self.last_error = None;
        Some((id, text))
    }

    /// A send request could not be handed to the backend: surface the
    /// error and roll the in-flight flag back.
    pub fn send_request_failed(&mut self, error: String)
        ensures
            *final(self) == (AppState {
                last_error: Some(error),
                is_sending_message: false,
                ..*old(self)
            }),
    {
        self.last_error = Some(error);
        self.is_sending_message = false;
    }

    /// A backend-reported failure: surface it and clear every in-flight
    /// flag so the interface is not stuck.
    pub fn on_backend_error(&mut self, error: String)
        ensures
            *final(self) == (AppState {
                last_error: Some(error),
                is_loading_dialogs: false,
                is_loading_messages: false,
                is_sending_message: false,
                ..*old(self)
            }),
    {
        self.last_error = Some(error);
        self.is_loading_dialogs = false;
        self.is_loading_messages = false;
        self.is_sending_message = false;
    }

    /// The backend's event channel closed: fatal. Surface it and ask the
    /// loop to terminate.
    pub fn on_channel_closed(&mut self)
        ensures
            error_is(final(self).last_error, "telegram task exited"@),
            *final(self) == (AppState {
                last_error: final(self).last_error,
                should_quit: true,
                ..*old(self)
            }),
    {
        self.last_error = Some(String::from_str("telegram task exited"));
        self.should_quit = true;
    }

    /// After a dialog-list refresh: whether a transcript load must follow,
    /// because the selection is new or its transcript is still empty.
    pub fn should_reload_after_dialogs(&self, selected_before: Option<i64>) -> (r: bool)
        ensures
            r == match self.selected_dialog_id {
                Some(id) => selected_before != Some(id) || self.spec_selected_messages().len()
                    == 0,
                None => false,
            },
    {
        match self.selected_dialog_id {
            Some(id) => {
                let changed = match selected_before {
                    Some(b) => b != id,
                    None => true,
                };
                changed || self.selected_dialog_messages().is_empty()
            },
            None => false,
        }
    }
}

} // verus!
