use vstd::prelude::*;

use crate::text::{decimal, decimal_of};

verus! {

pub const GL_DEBUG_SOURCE_API: u32 = 0x8246;

pub const GL_DEBUG_SOURCE_WINDOW_SYSTEM: u32 = 0x8247;

pub const GL_DEBUG_SOURCE_SHADER_COMPILER: u32 = 0x8248;

pub const GL_DEBUG_SOURCE_THIRD_PARTY: u32 = 0x8249;

pub const GL_DEBUG_SOURCE_APPLICATION: u32 = 0x824A;

pub const GL_DEBUG_SOURCE_OTHER: u32 = 0x824B;

pub const GL_DEBUG_TYPE_ERROR: u32 = 0x824C;

pub const GL_DEBUG_TYPE_DEPRECATED_BEHAVIOR: u32 = 0x824D;

pub const GL_DEBUG_TYPE_UNDEFINED_BEHAVIOR: u32 = 0x824E;

pub const GL_DEBUG_TYPE_PORTABILITY: u32 = 0x824F;

pub const GL_DEBUG_TYPE_PERFORMANCE: u32 = 0x8250;

pub const GL_DEBUG_TYPE_OTHER: u32 = 0x8251;

pub const GL_DEBUG_TYPE_MARKER: u32 = 0x8268;

pub const GL_DEBUG_TYPE_PUSH_GROUP: u32 = 0x8269;

pub const GL_DEBUG_TYPE_POP_GROUP: u32 = 0x826A;

pub const GL_DEBUG_SEVERITY_NOTIFICATION: u32 = 0x826B;

pub const GL_DEBUG_SEVERITY_HIGH: u32 = 0x9146;

pub const GL_DEBUG_SEVERITY_MEDIUM: u32 = 0x9147;

pub const GL_DEBUG_SEVERITY_LOW: u32 = 0x9148;

pub const GL_DONT_CARE: u32 = 0x1100;

/// The message id of a driver's notice that it recompiles a shader.
pub const RECOMPILE_NOTICE_ID: u32 = 131218;

pub open spec fn source_label(code: u32) -> Seq<char> {
    if code == GL_DEBUG_SOURCE_API {
        "api"@
    } else if code == GL_DEBUG_SOURCE_WINDOW_SYSTEM {
        "window_system"@
    } else if code == GL_DEBUG_SOURCE_SHADER_COMPILER {
        "shader_compiler"@
    } else if code == GL_DEBUG_SOURCE_THIRD_PARTY {
        "third_party"@
    } else if code == GL_DEBUG_SOURCE_APPLICATION {
        "application"@
    } else if code == GL_DEBUG_SOURCE_OTHER {
        "other"@
    } else {
        decimal_of(code as nat)
    }
}

pub open spec fn type_label(code: u32) -> Seq<char> {
    if code == GL_DEBUG_TYPE_ERROR {
        "error"@
    } else if code == GL_DEBUG_TYPE_DEPRECATED_BEHAVIOR {
        "deprecated_behavior"@
    } else if code == GL_DEBUG_TYPE_UNDEFINED_BEHAVIOR {
        "undefined_behavior"@
    } else if code == GL_DEBUG_TYPE_PORTABILITY {
        "portability"@
    } else if code == GL_DEBUG_TYPE_PERFORMANCE {
        "performance"@
    } else if code == GL_DEBUG_TYPE_MARKER {
        "marker"@
    } else if code == GL_DEBUG_TYPE_PUSH_GROUP {
        "push_group"@
    } else if code == GL_DEBUG_TYPE_POP_GROUP {
        "pop_group"@
    } else if code == GL_DEBUG_TYPE_OTHER {
        "other"@
    } else {
        decimal_of(code as nat)
    }
}

pub open spec fn severity_label(code: u32) -> Seq<char> {
    if code == GL_DEBUG_SEVERITY_LOW {
        "low"@
    } else if code == GL_DEBUG_SEVERITY_MEDIUM {
        "medium"@
    } else if code == GL_DEBUG_SEVERITY_HIGH {
        "high"@
    } else if code == GL_DEBUG_SEVERITY_NOTIFICATION {
        "notification"@
    } else {
        decimal_of(code as nat)
    }
}

pub fn source_name(code: u32) -> (r: String)
    ensures
        r@ == source_label(code),
{
    if code == GL_DEBUG_SOURCE_API {
        String::from_str("api")
    } else if code == GL_DEBUG_SOURCE_WINDOW_SYSTEM {
        String::from_str("window_system")
    } else if code == GL_DEBUG_SOURCE_SHADER_COMPILER {
        String::from_str("shader_compiler")
    } else if code == GL_DEBUG_SOURCE_THIRD_PARTY {
        String::from_str("third_party")
    } else if code == GL_DEBUG_SOURCE_APPLICATION {
        String::from_str("application")
    } else if code == GL_DEBUG_SOURCE_OTHER {
        String::from_str("other")
    } else {
        decimal(code)
    }
}

pub fn kind_name(code: u32) -> (r: String)
    ensures
        r@ == type_label(code),
{
    if code == GL_DEBUG_TYPE_ERROR {
        String::from_str("error")
    } else if code == GL_DEBUG_TYPE_DEPRECATED_BEHAVIOR {
        String::from_str("deprecated_behavior")
    } else if code == GL_DEBUG_TYPE_UNDEFINED_BEHAVIOR {
        String::from_str("undefined_behavior")
    } else if code == GL_DEBUG_TYPE_PORTABILITY {
        String::from_str("portability")
    } else if code == GL_DEBUG_TYPE_PERFORMANCE {
        String::from_str("performance")
    } else if code == GL_DEBUG_TYPE_MARKER {
        String::from_str("marker")
    } else if code == GL_DEBUG_TYPE_PUSH_GROUP {
        String::from_str("push_group")
    } else if code == GL_DEBUG_TYPE_POP_GROUP {
        String::from_str("pop_group")
    } else if code == GL_DEBUG_TYPE_OTHER {
        String::from_str("other")
    } else {
        decimal(code)
    }
}

pub fn severity_name(code: u32) -> (r: String)
    ensures
        r@ == severity_label(code),
{
    if code == GL_DEBUG_SEVERITY_LOW {
        String::from_str("low")
    } else if code == GL_DEBUG_SEVERITY_MEDIUM {
        String::from_str("medium")
    } else if code == GL_DEBUG_SEVERITY_HIGH {
        String::from_str("high")
    } else if code == GL_DEBUG_SEVERITY_NOTIFICATION {
        String::from_str("notification")
    } else {
        decimal(code)
    }
}

/// A driver message made ready for the log.
#[derive(Debug)]
pub struct DebugReport {
    /// Low-severity messages go to the debug level, all others are warnings.
    pub quiet: bool,
    pub text: String,
}

pub open spec fn report_text(source: u32, msg_type: u32, id: u32, severity: u32, msg: Seq<char>) -> Seq<char> {
    "OpenGL debug( source="@ + source_label(source) + ", type="@ + type_label(msg_type) + ", id="@
        + decimal_of(id as nat) + ", severity="@ + severity_label(severity) + " ): "@ + msg
}

/// Describes one message of the driver's debug output.
pub fn debug_callback(source: u32, msg_type: u32, id: u32, severity: u32, msg: &str) -> (r: DebugReport)
    ensures
        r.quiet == (severity == GL_DEBUG_SEVERITY_LOW),
        r.text@ == report_text(source, msg_type, id, severity, msg@),
{
    let mut text = String::from_str("OpenGL debug( source=");
    text.append(source_name(source).as_str());
    text.append(", type=");
    text.append(kind_name(msg_type).as_str());
    text.append(", id=");
    text.append(decimal(id).as_str());
    text.append(", severity=");
    text.append(severity_name(severity).as_str());
    text.append(" ): ");
    text.append(msg);
    DebugReport { quiet: severity == GL_DEBUG_SEVERITY_LOW, text }
}

/// A class of driver messages to switch off: `GL_DONT_CARE` matches any
/// value, and an empty id list any id.
#[derive(Debug)]
pub struct DebugFilter {
    pub source: u32,
    pub msg_type: u32,
    pub severity: u32,
    pub ids: Vec<u32>,
}

/// The classes switched off in debug builds: frame-debugger groups and
/// markers from the application, notifications, and the recompile notice.
pub open spec fn quiet_classes() -> Seq<(u32, u32, u32, Seq<u32>)> {
    seq![
        (GL_DEBUG_SOURCE_APPLICATION, GL_DEBUG_TYPE_PUSH_GROUP, GL_DONT_CARE, seq![]),
        (GL_DEBUG_SOURCE_APPLICATION, GL_DEBUG_TYPE_POP_GROUP, GL_DONT_CARE, seq![]),
        (GL_DEBUG_SOURCE_APPLICATION, GL_DEBUG_TYPE_MARKER, GL_DONT_CARE, seq![]),
        (GL_DONT_CARE, GL_DONT_CARE, GL_DEBUG_SEVERITY_NOTIFICATION, seq![]),
        (GL_DEBUG_SOURCE_API, GL_DEBUG_TYPE_PERFORMANCE, GL_DONT_CARE, seq![RECOMPILE_NOTICE_ID]),
    ]
}

fn filter(source: u32, msg_type: u32, severity: u32, ids: Vec<u32>) -> (r: DebugFilter)
    ensures
        r.source == source && r.msg_type == msg_type && r.severity == severity && r.ids@ == ids@,
{
    DebugFilter { source, msg_type, severity, ids }
}

pub fn debug_filters() -> (r: Vec<DebugFilter>)
    ensures
        r@.len() == quiet_classes().len(),
        forall|k: int|
            0 <= k < r@.len() ==> ((#[trigger] r@[k]).source, r@[k].msg_type, r@[k].severity,
            r@[k].ids@) == quiet_classes()[k],
{
    let mut r: Vec<DebugFilter> = Vec::new();
    r.push(filter(GL_DEBUG_SOURCE_APPLICATION, GL_DEBUG_TYPE_PUSH_GROUP, GL_DONT_CARE, Vec::new()));
    r.push(filter(GL_DEBUG_SOURCE_APPLICATION, GL_DEBUG_TYPE_POP_GROUP, GL_DONT_CARE, Vec::new()));
    r.push(filter(GL_DEBUG_SOURCE_APPLICATION, GL_DEBUG_TYPE_MARKER, GL_DONT_CARE, Vec::new()));
    r.push(filter(GL_DONT_CARE, GL_DONT_CARE, GL_DEBUG_SEVERITY_NOTIFICATION, Vec::new()));
    let mut ids: Vec<u32> = Vec::new();
    ids.push(RECOMPILE_NOTICE_ID);
    r.push(filter(GL_DEBUG_SOURCE_API, GL_DEBUG_TYPE_PERFORMANCE, GL_DONT_CARE, ids));
    proof {
        assert(ids@ =~= seq![RECOMPILE_NOTICE_ID]);
    }
    r
}

} // verus!
