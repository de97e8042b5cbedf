//! Switching the speaker style of a line, as a reversible command.

use crate::project::{ProjectV, VoiceVoxProject};
use vstd::prelude::*;

verus! {

/// The button that opens the style menu for a line; holds the style the
/// line currently uses.
pub struct CharaChangeButton(pub i32);

/// A style switch on one line: the style before and after.
pub struct CharaChangeCommand {
    pub prev_chara: i32,
    pub new_chara: i32,
}

/// Mathematical image of a [`CharaChangeCommand`].
#[verifier::ext_equal]
pub ghost struct CharaChangeCommandV {
    pub prev_chara: i32,
    pub new_chara: i32,
}

impl View for CharaChangeCommand {
    type V = CharaChangeCommandV;

    open spec fn view(&self) -> CharaChangeCommandV {
        CharaChangeCommandV { prev_chara: self.prev_chara, new_chara: self.new_chara }
    }
}

/// The project with the style of line `u` set to `style`; unchanged when
/// no line is bound to `u`.
pub open spec fn with_style(p: ProjectV, u: Seq<char>, style: i32) -> ProjectV {
    let i = p.idx_of(u);
    if i >= 0 {
        let item = p.lines[i].1;
        let item2 = crate::project::AudioItemV { style_id: style, ..item };
        ProjectV { app_version: p.app_version, lines: p.lines.update(i, (p.lines[i].0, item2)) }
    } else {
        p
    }
}

impl CharaChangeCommand {
    /// Installs the new style on the line bound to `uuid`.
    pub fn invoke(&mut self, project: &mut VoiceVoxProject, uuid: &String)
        ensures
            final(self)@ == old(self)@,
            final(project)@ == with_style(old(project)@, uuid@, old(self).new_chara),
    {
        let ghost pre: ProjectV = project@;
        let style = self.new_chara;
        match project.find_index(uuid) {
            Some(i) => {
                let item = project.item_at_mut(i);
                item.style_id = style;
                proof {
                    assert(project@ =~= with_style(pre, uuid@, style));
                }
            },
            None => {},
        }
    }

    /// Restores the previous style on the line bound to `uuid`.
    pub fn undo(&mut self, project: &mut VoiceVoxProject, uuid: &String)
        ensures
            final(self)@ == old(self)@,
            final(project)@ == with_style(old(project)@, uuid@, old(self).prev_chara),
    {
        let ghost pre: ProjectV = project@;
        let style = self.prev_chara;
        match project.find_index(uuid) {
            Some(i) => {
                let item = project.item_at_mut(i);
                item.style_id = style;
                proof {
                    assert(project@ =~= with_style(pre, uuid@, style));
                }
            },
            None => {},
        }
    }

    /// The operation's display name.
    pub fn op_name(&self) -> (r: &'static str)
        ensures
            r@ == "キャラクター変更"@,
    {
        "キャラクター変更"
    }
}

} // verus!
