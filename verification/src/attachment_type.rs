//! The type of an event attachment.
use crate::text::same_text;
use vstd::prelude::*;

verus! {

/// The type of an event attachment.
#[derive(Debug, Eq)]
pub enum AttachmentType {
    /// A regular attachment without special meaning.
    Attachment,
    /// A minidump crash report (binary data).
    Minidump,
    /// An apple crash report (text data).
    AppleCrashReport,
    /// A msgpack-encoded event payload submitted as part of multipart uploads.
    ///
    /// This attachment is processed immediately and never forwarded or persisted.
    EventPayload,
    /// A msgpack-encoded list of payloads.
    ///
    /// There can be two attachments that the SDK may use as swappable buffers. Both attachments
    /// will be merged and truncated to the maximum number of allowed attachments.
    ///
    /// This attachment is processed immediately and never forwarded or persisted.
    Breadcrumbs,
    /// A binary attachment of Unreal 4 events that contains event context information.
    UnrealContext,
    /// A binary attachment of Unreal 4 events that contains event logs.
    UnrealLogs,
    /// An application UI view hierarchy (json payload).
    ViewHierarchy,
    /// Unknown attachment type, forwarded for compatibility.
    Unknown(String),
}

/// What an attachment type stands for.
pub enum AttachmentTypeView {
    /// See [`AttachmentType::Attachment`].
    Attachment,
    /// See [`AttachmentType::Minidump`].
    Minidump,
    /// See [`AttachmentType::AppleCrashReport`].
    AppleCrashReport,
    /// See [`AttachmentType::EventPayload`].
    EventPayload,
    /// See [`AttachmentType::Breadcrumbs`].
    Breadcrumbs,
    /// See [`AttachmentType::UnrealContext`].
    UnrealContext,
    /// See [`AttachmentType::UnrealLogs`].
    UnrealLogs,
    /// See [`AttachmentType::ViewHierarchy`].
    ViewHierarchy,
    /// See [`AttachmentType::Unknown`].
    Unknown(Seq<char>),
}

impl View for AttachmentType {
    type V = AttachmentTypeView;

    open spec fn view(&self) -> AttachmentTypeView {
        match self {
            AttachmentType::Attachment => AttachmentTypeView::Attachment,
            AttachmentType::Minidump => AttachmentTypeView::Minidump,
            AttachmentType::AppleCrashReport => AttachmentTypeView::AppleCrashReport,
            AttachmentType::EventPayload => AttachmentTypeView::EventPayload,
            AttachmentType::Breadcrumbs => AttachmentTypeView::Breadcrumbs,
            AttachmentType::UnrealContext => AttachmentTypeView::UnrealContext,
            AttachmentType::UnrealLogs => AttachmentTypeView::UnrealLogs,
            AttachmentType::ViewHierarchy => AttachmentTypeView::ViewHierarchy,
            AttachmentType::Unknown(name) => AttachmentTypeView::Unknown(name@),
        }
    }
}

/// The name of an attachment type.
pub open spec fn attachment_type_name(ty: AttachmentTypeView) -> Seq<char> {
    match ty {
        AttachmentTypeView::Attachment => "event.attachment"@,
        AttachmentTypeView::Minidump => "event.minidump"@,
        AttachmentTypeView::AppleCrashReport => "event.applecrashreport"@,
        AttachmentTypeView::EventPayload => "event.payload"@,
        AttachmentTypeView::Breadcrumbs => "event.breadcrumbs"@,
        AttachmentTypeView::UnrealContext => "unreal.context"@,
        AttachmentTypeView::UnrealLogs => "unreal.logs"@,
        AttachmentTypeView::ViewHierarchy => "event.view_hierarchy"@,
        AttachmentTypeView::Unknown(name) => name,
    }
}

/// The attachment type with the given name.
pub open spec fn attachment_type_of(name: Seq<char>) -> AttachmentTypeView {
    if name == "event.attachment"@ {
        AttachmentTypeView::Attachment
    } else if name == "event.minidump"@ {
        AttachmentTypeView::Minidump
    } else if name == "event.applecrashreport"@ {
        AttachmentTypeView::AppleCrashReport
    } else if name == "event.payload"@ {
        AttachmentTypeView::EventPayload
    } else if name == "event.breadcrumbs"@ {
        AttachmentTypeView::Breadcrumbs
    } else if name == "unreal.context"@ {
        AttachmentTypeView::UnrealContext
    } else if name == "unreal.logs"@ {
        AttachmentTypeView::UnrealLogs
    } else if name == "event.view_hierarchy"@ {
        AttachmentTypeView::ViewHierarchy
    } else {
        AttachmentTypeView::Unknown(name)
    }
}

/// Whether no known attachment type hides behind [`AttachmentType::Unknown`].
pub open spec fn attachment_type_canonical(ty: AttachmentTypeView) -> bool {
    ty matches AttachmentTypeView::Unknown(name) ==> attachment_type_of(name) == ty
}

/// The attachment type made from a name has that name.
pub proof fn lemma_attachment_type_name_of(name: Seq<char>)
    ensures
        attachment_type_name(attachment_type_of(name)) == name,
        attachment_type_canonical(attachment_type_of(name)),
{
}

/// A canonical attachment type is made from its name.
pub proof fn lemma_attachment_type_of_name(ty: AttachmentTypeView)
    requires
        attachment_type_canonical(ty),
    ensures
        attachment_type_of(attachment_type_name(ty)) == ty,
{
    reveal_strlit("event.attachment");
    reveal_strlit("event.minidump");
    reveal_strlit("event.applecrashreport");
    reveal_strlit("event.payload");
    reveal_strlit("event.breadcrumbs");
    reveal_strlit("unreal.context");
    reveal_strlit("unreal.logs");
    reveal_strlit("event.view_hierarchy");
    assert("event.attachment"@.len() == 16);
    assert("event.minidump"@.len() == 14);
    assert("event.applecrashreport"@.len() == 22);
    assert("event.payload"@.len() == 13);
    assert("event.breadcrumbs"@.len() == 17);
    assert("unreal.context"@.len() == 14);
    assert("unreal.logs"@.len() == 11);
    assert("event.view_hierarchy"@.len() == 20);
    assert("event.minidump"@[0] != "unreal.context"@[0]);
}

impl AttachmentType {
    /// The name of this attachment type.
    pub fn as_str(&self) -> (r: &str)
        ensures
            r@ == attachment_type_name(self@),
    {
        match self {
            AttachmentType::Attachment => "event.attachment",
            AttachmentType::Minidump => "event.minidump",
            AttachmentType::AppleCrashReport => "event.applecrashreport",
            AttachmentType::EventPayload => "event.payload",
            AttachmentType::Breadcrumbs => "event.breadcrumbs",
            AttachmentType::UnrealContext => "unreal.context",
            AttachmentType::UnrealLogs => "unreal.logs",
            AttachmentType::ViewHierarchy => "event.view_hierarchy",
            AttachmentType::Unknown(name) => name.as_str(),
        }
    }

    /// The attachment type with the given name.
    pub fn from_name(name: &str) -> (r: Self)
        ensures
            r@ == attachment_type_of(name@),
    {
        if same_text(name, "event.attachment") {
            AttachmentType::Attachment
        } else if same_text(name, "event.minidump") {
            AttachmentType::Minidump
        } else if same_text(name, "event.applecrashreport") {
            AttachmentType::AppleCrashReport
        } else if same_text(name, "event.payload") {
            AttachmentType::EventPayload
        } else if same_text(name, "event.breadcrumbs") {
            AttachmentType::Breadcrumbs
        } else if same_text(name, "unreal.context") {
            AttachmentType::UnrealContext
        } else if same_text(name, "unreal.logs") {
            AttachmentType::UnrealLogs
        } else if same_text(name, "event.view_hierarchy") {
            AttachmentType::ViewHierarchy
        } else {
            AttachmentType::Unknown(name.to_owned())
        }
    }
}

impl Clone for AttachmentType {
    fn clone(&self) -> (r: Self)
        ensures
            r@ == self@,
    {
        match self {
            AttachmentType::Attachment => AttachmentType::Attachment,
            AttachmentType::Minidump => AttachmentType::Minidump,
            AttachmentType::AppleCrashReport => AttachmentType::AppleCrashReport,
            AttachmentType::EventPayload => AttachmentType::EventPayload,
            AttachmentType::Breadcrumbs => AttachmentType::Breadcrumbs,
            AttachmentType::UnrealContext => AttachmentType::UnrealContext,
            AttachmentType::UnrealLogs => AttachmentType::UnrealLogs,
            AttachmentType::ViewHierarchy => AttachmentType::ViewHierarchy,
            AttachmentType::Unknown(name) => AttachmentType::Unknown(name.clone()),
        }
    }
}

impl PartialEq for AttachmentType {
    fn eq(&self, other: &Self) -> (r: bool) {
        match (self, other) {
            (AttachmentType::Attachment, AttachmentType::Attachment) => true,
            (AttachmentType::Minidump, AttachmentType::Minidump) => true,
            (AttachmentType::AppleCrashReport, AttachmentType::AppleCrashReport) => true,
            (AttachmentType::EventPayload, AttachmentType::EventPayload) => true,
            (AttachmentType::Breadcrumbs, AttachmentType::Breadcrumbs) => true,
            (AttachmentType::UnrealContext, AttachmentType::UnrealContext) => true,
            (AttachmentType::UnrealLogs, AttachmentType::UnrealLogs) => true,
            (AttachmentType::ViewHierarchy, AttachmentType::ViewHierarchy) => true,
            (AttachmentType::Unknown(a), AttachmentType::Unknown(b)) => *a == *b,
            _ => false,
        }
    }
}

impl vstd::std_specs::cmp::PartialEqSpecImpl for AttachmentType {
    open spec fn obeys_eq_spec() -> bool {
        true
    }

    open spec fn eq_spec(&self, other: &Self) -> bool {
        self@ == other@
    }
}

impl std::str::FromStr for AttachmentType {
    type Err = std::convert::Infallible;

    fn from_str(name: &str) -> (r: Result<Self, Self::Err>)
        ensures
            r matches Ok(ty) && ty@ == attachment_type_of(name@),
    {
        Ok(AttachmentType::from_name(name))
    }
}

impl Default for AttachmentType {
    fn default() -> (r: Self)
        ensures
            r@ == AttachmentTypeView::Attachment,
    {
        AttachmentType::Attachment
    }
}

} // verus!
