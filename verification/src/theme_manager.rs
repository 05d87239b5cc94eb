//! Applies a resolved theme: the per-kind border colours and the stackbar
//! text and background colours, followed by a forced border pass and a
//! stackbar refresh. The palette lookup that resolves a named theme into
//! colour values is the driver's concern.

use crate::border_manager;
use crate::border_manager::BorderMessage;
use crate::runtime::Control;
use crate::runtime::Message;
use crate::runtime::Runtime;
use crate::stackbar_manager;
use crate::stackbar_manager::StackbarMessage;
use crate::window_manager::WindowManager;
use vstd::prelude::*;

verus! {

/// A theme resolved to plain colour values, one per border kind and
/// stackbar role.
#[derive(Debug, Clone, Copy, PartialEq, Eq, Structural)]
pub struct ResolvedTheme {
    pub single_border: u32,
    pub stack_border: u32,
    pub monocle_border: u32,
    pub floating_border: u32,
    pub unfocused_border: u32,
    pub unfocused_locked_border: u32,
    pub stackbar_focused_text: u32,
    pub stackbar_unfocused_text: u32,
    pub stackbar_background: u32,
}

impl WindowManager {
    /// Updates the colours of the border engine and the stackbar manager
    /// according to the new theme, then requests a forced border pass and a
    /// stackbar refresh; a theme that is already applied is ignored.
    pub fn update_theme(&mut self, theme: ResolvedTheme, rt: &mut Runtime)
        ensures
            old(self).theme == Some(theme) ==> *final(self) == *old(self) && *final(rt) == *old(rt),
            old(self).theme != Some(theme) ==> {
                &&& final(self).theme == Some(theme)
                &&& final(self).border_manager.kind_colours.single_colour == theme.single_border
                &&& final(self).border_manager.kind_colours.stack_colour == theme.stack_border
                &&& final(self).border_manager.kind_colours.monocle_colour == theme.monocle_border
                &&& final(self).border_manager.kind_colours.floating_colour
                    == theme.floating_border
                &&& final(self).border_manager.kind_colours.unfocused_colour
                    == theme.unfocused_border
                &&& final(self).border_manager.kind_colours.unfocused_locked_colour
                    == theme.unfocused_locked_border
                &&& final(self).stackbar_manager.globals.tab_background_colour
                    == theme.stackbar_background
                &&& final(self).stackbar_manager.globals.focused_text_colour
                    == theme.stackbar_focused_text
                &&& final(self).stackbar_manager.globals.unfocused_text_colour
                    == theme.stackbar_unfocused_text
                &&& final(self).border_manager.borders@ == old(self).border_manager.borders@
                &&& final(self).border_manager.windows_borders@ == old(
                    self,
                ).border_manager.windows_borders@
            },
            final(rt).spec_stopped() == old(rt).spec_stopped(),
            (old(self).theme != Some(theme) && !old(rt).spec_stopped() && old(rt).control_view().len() + 2 <= old(rt).control_capacity()) ==> (final(rt).control_view()
                == old(rt).control_view().push(
                Message::Control(Control::Border(BorderMessage::ForceUpdate(None))),
            ).push(Message::Control(Control::Stackbar(StackbarMessage::Update))) && final(rt).events_view() == old(rt).events_view() && final(rt).commands_view() == old(rt).commands_view()),
    {
        let already_applied = match &self.theme {
            Some(t) => *t == theme,
            None => false,
        };
        if already_applied {
            // The theme is already applied, so there is nothing to recolour.
            return ;
        }
        self.border_manager.kind_colours.single_colour = theme.single_border;
        self.border_manager.kind_colours.monocle_colour = theme.monocle_border;
        self.border_manager.kind_colours.stack_colour = theme.stack_border;
        self.border_manager.kind_colours.floating_colour = theme.floating_border;
        self.border_manager.kind_colours.unfocused_colour = theme.unfocused_border;
        self.border_manager.kind_colours.unfocused_locked_colour = theme.unfocused_locked_border;
        self.stackbar_manager.globals.tab_background_colour = theme.stackbar_background;
        self.stackbar_manager.globals.focused_text_colour = theme.stackbar_focused_text;
        self.stackbar_manager.globals.unfocused_text_colour = theme.stackbar_unfocused_text;
        self.theme = Some(theme);
        let _ = border_manager::send_force_update(rt, None);
        let _ = stackbar_manager::send_update(rt);
    }
}

} // verus!
