use vstd::prelude::*;

verus! {

/// The answer given in the "Save changes?" prompt during a frame.
#[derive(Clone, Copy, Debug, PartialEq, Eq, Structural)]
pub enum SavePromptAction {
    NoAnswer,
    SaveAndClose,
    Close,
    Cancel,
}

/// The editor's bookkeeping of unsaved changes and of closing the window.
#[derive(Clone, Copy, Debug, PartialEq, Eq, Structural)]
pub struct EditorSession {
    /// The scene differs from what was last saved or loaded.
    pub dirty: bool,
    /// The "Save changes?" prompt is shown.
    pub show_save_prompt: bool,
    /// The window should close at the end of this frame.
    pub wants_close: bool,
}

impl EditorSession {
    /// After saving: a successful save leaves nothing unsaved.
    pub open spec fn after_save(self, saved: bool) -> EditorSession {
        EditorSession { dirty: self.dirty && !saved, ..self }
    }

    /// After a frame that did or did not change the scene.
    pub open spec fn after_changes(self, changed: bool) -> EditorSession {
        EditorSession { dirty: self.dirty || changed, ..self }
    }

    /// A request to close is cancelled when there are unsaved changes and the prompt is not up.
    pub open spec fn close_request_cancelled(self) -> bool {
        self.dirty && !self.show_save_prompt
    }

    /// After a request to close: the prompt is brought up when the request is cancelled.
    pub open spec fn after_close_request(self) -> EditorSession {
        EditorSession { show_save_prompt: self.show_save_prompt || self.close_request_cancelled(), ..self }
    }

    /// After the prompt's answer of this frame.
    pub open spec fn after_prompt_action(self, action: SavePromptAction) -> EditorSession {
        match action {
            SavePromptAction::SaveAndClose => EditorSession { wants_close: true, show_save_prompt: false, ..self },
            SavePromptAction::Close => EditorSession { wants_close: true, show_save_prompt: false, ..self },
            SavePromptAction::Cancel => EditorSession { show_save_prompt: false, ..self },
            SavePromptAction::NoAnswer => self,
        }
    }

    pub fn new() -> (r: Self)
        ensures
            !r.dirty,
            !r.show_save_prompt,
            !r.wants_close,
    {
        EditorSession { dirty: false, show_save_prompt: false, wants_close: false }
    }

    /// Records the outcome of saving the scene.
    pub fn record_save(&mut self, saved: bool)
        ensures
            *final(self) == old(self).after_save(saved),
            final(self).dirty == (old(self).dirty && !saved),
    {
        if saved {
            self.dirty = false;
        }
    }

    /// Records whether this frame changed the scene.
    pub fn record_changes(&mut self, changed: bool)
        ensures
            *final(self) == old(self).after_changes(changed),
            final(self).dirty == (old(self).dirty || changed),
            final(self).show_save_prompt == old(self).show_save_prompt,
            final(self).wants_close == old(self).wants_close,
    {
        if changed {
            self.dirty = true;
        }
    }

    /// The window was asked to close. Returns whether that close must be cancelled.
    pub fn close_requested(&mut self) -> (cancel: bool)
        ensures
            cancel == old(self).close_request_cancelled(),
            *final(self) == old(self).after_close_request(),
    {
        if self.dirty && !self.show_save_prompt {
            self.show_save_prompt = true;
            true
        } else {
            false
        }
    }

    /// Applies the prompt's answer. Returns whether the scene must be saved now.
    pub fn apply_prompt_action(&mut self, action: SavePromptAction) -> (save: bool)
        ensures
            save == (action == SavePromptAction::SaveAndClose),
            *final(self) == old(self).after_prompt_action(action),
    {
        match action {
            SavePromptAction::SaveAndClose => {
                self.wants_close = true;
                self.show_save_prompt = false;
                true
            },
            SavePromptAction::Close => {
                self.wants_close = true;
                self.show_save_prompt = false;
                false
            },
            SavePromptAction::Cancel => {
                self.show_save_prompt = false;
                false
            },
            SavePromptAction::NoAnswer => false,
        }
    }

    /// Returns whether the window must be closed now, and clears the request.
    pub fn take_close(&mut self) -> (close: bool)
        ensures
            close == old(self).wants_close,
            *final(self) == (EditorSession { wants_close: false, ..*old(self) }),
    {
        let close = self.wants_close;
        self.wants_close = false;
        close
    }
}

/// A request to close an editor that has unsaved changes and no prompt up is cancelled and brings
/// up the prompt; from there the window is marked to close exactly when the prompt is answered with
/// Close or Save & Close, and saving is asked for exactly on Save & Close.
pub proof fn lemma_unsaved_close_goes_through_prompt(s: EditorSession, action: SavePromptAction)
    requires
        s.dirty,
        !s.show_save_prompt,
        !s.wants_close,
    ensures
        s.close_request_cancelled(),
        s.after_close_request().show_save_prompt,
        !s.after_close_request().wants_close,
        s.after_close_request().after_prompt_action(action).wants_close <==> (action
            == SavePromptAction::SaveAndClose || action == SavePromptAction::Close),
        s.after_close_request().after_prompt_action(action).dirty,
{
}

/// A successful save leaves the session clean, whatever it held before; a failed one changes nothing.
pub proof fn lemma_save_clears_changes(s: EditorSession)
    ensures
        !s.after_save(true).dirty,
        s.after_save(false) == s,
{
}

/// A frame never clears unsaved changes: after any frames, the session has unsaved changes
/// exactly when it had them before or one of the frames changed the scene; a frame without
/// changes leaves the session as it was. Only a successful save clears them.
pub proof fn lemma_frames_never_clear_changes(s: EditorSession, frames: Seq<bool>)
    ensures
        frames_applied(s, frames).dirty == (s.dirty || exists|i: int| 0 <= i < frames.len() && frames[i]),
        frames_applied(s, frames).show_save_prompt == s.show_save_prompt,
        frames_applied(s, frames).wants_close == s.wants_close,
        s.after_changes(false) == s,
        s.dirty ==> s.after_changes(true) == s,
    decreases frames.len(),
{
    if frames.len() > 0 {
        let rest = frames.drop_last();
        lemma_frames_never_clear_changes(s, rest);
        if frames.last() {
            assert(frames[frames.len() - 1]);
        }
        if exists|i: int| 0 <= i < rest.len() && rest[i] {
            let i = choose|i: int| 0 <= i < rest.len() && rest[i];
            assert(frames[i]);
        }
        if exists|i: int| 0 <= i < frames.len() && frames[i] {
            let i = choose|i: int| 0 <= i < frames.len() && frames[i];
            if i < rest.len() {
                assert(rest[i]);
            }
        }
    }
}

/// The session after frames that did or did not change the scene, in order.
pub open spec fn frames_applied(s: EditorSession, frames: Seq<bool>) -> EditorSession
    decreases frames.len(),
{
    if frames.len() == 0 {
        s
    } else {
        frames_applied(s, frames.drop_last()).after_changes(frames.last())
    }
}

/// A clean session never cancels a request to close.
pub proof fn lemma_clean_close_is_not_cancelled(s: EditorSession)
    requires
        !s.dirty,
    ensures
        !s.close_request_cancelled(),
        s.after_close_request() == s,
{
}

} // verus!
