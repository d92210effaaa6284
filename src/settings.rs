//! User settings: the default group and the default table columns.
use vstd::prelude::*;
use vstd::string::*;

use crate::requests::{CommentField, DesignField};

verus! {

/// The user's settings, and whether they changed since they were read.
pub struct Settings {
    group: String,
    comment_fields: Vec<CommentField>,
    design_fields: Vec<DesignField>,
    modified: bool,
    verbose: bool,
}

impl Settings {
    pub closed spec fn group_view(&self) -> Seq<char> {
        self.group@
    }

    pub closed spec fn comment_fields_view(&self) -> Seq<CommentField> {
        self.comment_fields@
    }

    pub closed spec fn design_fields_view(&self) -> Seq<DesignField> {
        self.design_fields@
    }

    pub closed spec fn modified_view(&self) -> bool {
        self.modified
    }

    pub closed spec fn verbose_view(&self) -> bool {
        self.verbose
    }

    /// Settings as read back from storage, unmodified.
    pub fn from_parts(
        group: String,
        comment_fields: Vec<CommentField>,
        design_fields: Vec<DesignField>,
        verbose: bool,
    ) -> (s: Settings)
        ensures
            s.group_view() == group@,
            s.comment_fields_view() == comment_fields@,
            s.design_fields_view() == design_fields@,
            !s.modified_view(),
    {
        Settings { group, comment_fields, design_fields, modified: false, verbose }
    }

    /// The first-run settings: group `apa`, and the usual columns. They count as modified, so
    /// that they are saved.
    pub fn defaults(verbose: bool) -> (s: Settings)
        ensures
            s.group_view() == "apa"@,
            s.comment_fields_view() == seq![
                CommentField::Id,
                CommentField::Title,
                CommentField::Group,
                CommentField::Spec,
                CommentField::Status,
                CommentField::Assignees,
                CommentField::Our,
            ],
            s.design_fields_view() == seq![
                DesignField::Id,
                DesignField::Title,
                DesignField::Group,
                DesignField::Spec,
                DesignField::Status,
                DesignField::Assignees,
            ],
            s.modified_view(),
    {
        let s = Settings {
            group: String::from_str("apa"),
            comment_fields: vec![
                CommentField::Id,
                CommentField::Title,
                CommentField::Group,
                CommentField::Spec,
                CommentField::Status,
                CommentField::Assignees,
                CommentField::Our,
            ],
            design_fields: vec![
                DesignField::Id,
                DesignField::Title,
                DesignField::Group,
                DesignField::Spec,
                DesignField::Status,
                DesignField::Assignees,
            ],
            modified: true,
            verbose,
        };
        assert(s.comment_fields_view() =~= seq![
            CommentField::Id,
            CommentField::Title,
            CommentField::Group,
            CommentField::Spec,
            CommentField::Status,
            CommentField::Assignees,
            CommentField::Our,
        ]);
        assert(s.design_fields_view() =~= seq![
            DesignField::Id,
            DesignField::Title,
            DesignField::Group,
            DesignField::Spec,
            DesignField::Status,
            DesignField::Assignees,
        ]);
        s
    }

    /// The default group.
    pub fn group(&self) -> (r: String)
        ensures
            r@ == self.group_view(),
    {
        self.group.clone()
    }

    /// Sets the default group; says whether it changed (and so needs saving).
    pub fn set_group(&mut self, group: String) -> (changed: bool)
        ensures
            final(self).group_view() == group@,
            changed == (old(self).group_view() != group@),
            final(self).modified_view() == (old(self).modified_view() || changed),
            final(self).comment_fields_view() == old(self).comment_fields_view(),
            final(self).design_fields_view() == old(self).design_fields_view(),
    {
        if self.group == group {
            false
        } else {
            self.group = group;
            self.modified = true;
            true
        }
    }

    /// The default columns of the comments table.
    pub fn comment_fields(&self) -> (r: Vec<CommentField>)
        ensures
            r@ == self.comment_fields_view(),
    {
        let mut r: Vec<CommentField> = Vec::new();
        let mut i: usize = 0;
        while i < self.comment_fields.len()
            invariant
                i <= self.comment_fields@.len(),
                r@ == self.comment_fields@.take(i as int),
            decreases self.comment_fields@.len() - i,
        {
            r.push(self.comment_fields[i]);
            assert(r@ =~= self.comment_fields@.take(i + 1));
            i = i + 1;
        }
        assert(self.comment_fields@.take(i as int) =~= self.comment_fields@);
        r
    }

    /// The default columns of the designs table.
    pub fn design_fields(&self) -> (r: Vec<DesignField>)
        ensures
            r@ == self.design_fields_view(),
    {
        let mut r: Vec<DesignField> = Vec::new();
        let mut i: usize = 0;
        while i < self.design_fields.len()
            invariant
                i <= self.design_fields@.len(),
                r@ == self.design_fields@.take(i as int),
            decreases self.design_fields@.len() - i,
        {
            r.push(self.design_fields[i]);
            assert(r@ =~= self.design_fields@.take(i + 1));
            i = i + 1;
        }
        assert(self.design_fields@.take(i as int) =~= self.design_fields@);
        r
    }

    /// Sets the default columns of the comments table; they then need saving.
    pub fn set_comment_fields(&mut self, fields: Vec<CommentField>)
        ensures
            final(self).comment_fields_view() == fields@,
            final(self).modified_view(),
            final(self).group_view() == old(self).group_view(),
            final(self).design_fields_view() == old(self).design_fields_view(),
    {
        self.comment_fields = fields;
        self.modified = true;
    }

    /// Sets the default columns of the designs table; they then need saving.
    pub fn set_design_fields(&mut self, fields: Vec<DesignField>)
        ensures
            final(self).design_fields_view() == fields@,
            final(self).modified_view(),
            final(self).group_view() == old(self).group_view(),
            final(self).comment_fields_view() == old(self).comment_fields_view(),
    {
        self.design_fields = fields;
        self.modified = true;
    }

    /// Whether the settings changed since they were read.
    pub fn is_modified(&self) -> (r: bool)
        ensures
            r == self.modified_view(),
    {
        self.modified
    }

    /// Whether to say what is being done.
    pub fn verbose(&self) -> (r: bool)
        ensures
            r == self.verbose_view(),
    {
        self.verbose
    }
}

} // verus!
