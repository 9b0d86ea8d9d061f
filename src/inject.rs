//! Context injection: rendering a workspace configuration template against
//! the provisioned resources.
//!
//! The resources are laid out as a JSON document,
//! `{"services": {<name>: {"ports": {<internal>: <external>, ...}, "container_id": <id>}, ...}}`,
//! which the template reads through dotted paths such as
//! `services.postgres.ports.5432`. The template engine runs in strict mode:
//! a path that names nothing is an error, not empty text.

use vstd::prelude::*;
use crate::backend::ResourceHandle;
use crate::error::AetherError;
use crate::text::{decimal, decimal_string};

verus! {

/// What a fresh template registry with strict mode on (default escaping,
/// built-in helpers only) makes of a template and a context document: the
/// rendered text, or nothing when reading the document or rendering fails.
pub uninterp spec fn rendered(template: Seq<char>, context: Seq<char>) -> Option<Seq<char>>;

/// Relies on `handlebars::Registry::new` and `set_strict_mode(true)` for a
/// fresh strict registry, on `serde_json::from_str` to read the context
/// document into a JSON value, and on `handlebars::Registry::render_template`
/// to render the template against it. Every setting of the registry is fixed
/// here, so the outcome depends on the two texts alone.
#[verifier::external_body]
fn render_document(template: &str, context: &str) -> (r: Result<String, String>)
    ensures
        match r {
            Ok(text) => rendered(template@, context@) == Some(text@),
            Err(_) => rendered(template@, context@) is None,
        },
{
    let mut registry = handlebars::Handlebars::new();
    registry.set_strict_mode(true);
    let value: serde_json::Value = serde_json::from_str(context).map_err(|e| e.to_string())?;
    registry.render_template(template, &value).map_err(|e| e.to_string())
}

/// The hexadecimal digits.
pub open spec fn hex_digits() -> Seq<char> {
    seq!['0', '1', '2', '3', '4', '5', '6', '7', '8', '9', 'a', 'b', 'c', 'd', 'e', 'f']
}

/// One character inside a JSON string.
pub open spec fn escape_char(c: char) -> Seq<char> {
    if c == '"' {
        "\\\""@
    } else if c == '\\' {
        "\\\\"@
    } else if (c as u32) < 32 {
        "\\u00"@ + seq![hex_digits()[(c as u32) as int / 16], hex_digits()[(c as u32) as int % 16]]
    } else {
        seq![c]
    }
}

/// The characters of a JSON string, escaped.
pub open spec fn escape(s: Seq<char>) -> Seq<char>
    decreases s.len(),
{
    if s.len() == 0 {
        Seq::empty()
    } else {
        escape(s.drop_last()) + escape_char(s.last())
    }
}

/// A JSON string.
pub open spec fn json_string(s: Seq<char>) -> Seq<char> {
    "\""@ + escape(s) + "\""@
}

/// One member of a `ports` object: the internal port as key, the external as value.
pub open spec fn port_member(p: (u16, u16)) -> Seq<char> {
    "\""@ + decimal(p.0 as nat) + "\":"@ + decimal(p.1 as nat)
}

/// The members of a `ports` object, separated by commas.
pub open spec fn port_members(ps: Seq<(u16, u16)>) -> Seq<char>
    decreases ps.len(),
{
    if ps.len() == 0 {
        Seq::empty()
    } else if ps.len() == 1 {
        port_member(ps[0])
    } else {
        port_members(ps.drop_last()) + ","@ + port_member(ps.last())
    }
}

/// The member of the `services` object that describes one resource.
pub open spec fn service_member(h: ResourceHandle) -> Seq<char> {
    json_string(h.service_name@) + ":{\"ports\":{"@ + port_members(h.port_mappings@)
        + "},\"container_id\":"@ + json_string(h.container_id@) + "}"@
}

/// The members of the `services` object, separated by commas.
pub open spec fn service_members(hs: Seq<ResourceHandle>) -> Seq<char>
    decreases hs.len(),
{
    if hs.len() == 0 {
        Seq::empty()
    } else if hs.len() == 1 {
        service_member(hs[0])
    } else {
        service_members(hs.drop_last()) + ","@ + service_member(hs.last())
    }
}

/// The context document of a set of resources.
pub open spec fn context_document(hs: Seq<ResourceHandle>) -> Seq<char> {
    "{\"services\":{"@ + service_members(hs) + "}}"@
}

fn push_escaped(out: &mut String, s: &str)
    ensures
        final(out)@ == old(out)@ + escape(s@),
{
    let hex = "0123456789abcdef";
    proof {
        reveal_strlit("0123456789abcdef");
    }
    assert(hex@ =~= hex_digits());
    let n = s.unicode_len();
    let mut i: usize = 0;
    assert(s@.subrange(0, 0) =~= Seq::<char>::empty());
    assert(out@ =~= old(out)@ + escape(s@.subrange(0, 0)));
    while i < n
        invariant
            n == s@.len(),
            i <= n,
            hex@ == hex_digits(),
            out@ == old(out)@ + escape(s@.subrange(0, i as int)),
        decreases n - i,
    {
        let c = s.get_char(i);
        let ghost before = out@;
        if c == '"' {
            out.append("\\\"");
        } else if c == '\\' {
            out.append("\\\\");
        } else if (c as u32) < 32 {
            let u = c as u32;
            out.append("\\u00");
            out.append(hex.substring_char((u / 16) as usize, (u / 16) as usize + 1));
            out.append(hex.substring_char((u % 16) as usize, (u % 16) as usize + 1));
            assert(out@ =~= before + escape_char(c));
        } else {
            out.append(s.substring_char(i, i + 1));
            assert(out@ =~= before + escape_char(c));
        }
        assert(s@.subrange(0, i + 1).drop_last() =~= s@.subrange(0, i as int));
        assert(out@ =~= old(out)@ + escape(s@.subrange(0, i + 1)));
        i = i + 1;
    }
    assert(s@.subrange(0, n as int) =~= s@);
}

fn push_port_members(out: &mut String, ps: &Vec<(u16, u16)>)
    ensures
        final(out)@ == old(out)@ + port_members(ps@),
{
    let mut i: usize = 0;
    assert(out@ =~= old(out)@ + port_members(ps@.subrange(0, 0)));
    while i < ps.len()
        invariant
            i <= ps@.len(),
            out@ == old(out)@ + port_members(ps@.subrange(0, i as int)),
        decreases ps.len() - i,
    {
        let ghost before = out@;
        if i > 0 {
            out.append(",");
        }
        let (internal, external) = ps[i];
        out.append("\"");
        let a = decimal_string(internal as u64);
        out.append(a.as_str());
        out.append("\":");
        let b = decimal_string(external as u64);
        out.append(b.as_str());
        let ghost pre = ps@.subrange(0, i as int);
        assert(ps@.subrange(0, i + 1).drop_last() =~= pre);
        if i == 0 {
            assert(out@ =~= before + port_member(ps@[0]));
        } else {
            assert(out@ =~= before + ","@ + port_member(ps@[i as int]));
        }
        assert(out@ =~= old(out)@ + port_members(ps@.subrange(0, i + 1)));
        i = i + 1;
    }
    assert(ps@.subrange(0, ps@.len() as int) =~= ps@);
}

fn push_service_member(out: &mut String, h: &ResourceHandle)
    ensures
        final(out)@ == old(out)@ + service_member(*h),
{
    out.append("\"");
    push_escaped(out, h.service_name.as_str());
    out.append("\"");
    out.append(":{\"ports\":{");
    push_port_members(out, &h.port_mappings);
    out.append("},\"container_id\":");
    out.append("\"");
    push_escaped(out, h.container_id.as_str());
    out.append("\"");
    out.append("}");
    assert(out@ =~= old(out)@ + service_member(*h));
}

/// The context document the template is rendered against.
pub fn context_json(resources: &Vec<ResourceHandle>) -> (r: String)
    ensures
        r@ == context_document(resources@),
{
    let mut out = String::from_str("{\"services\":{");
    let mut i: usize = 0;
    assert(out@ =~= "{\"services\":{"@ + service_members(resources@.subrange(0, 0)));
    while i < resources.len()
        invariant
            i <= resources@.len(),
            out@ == "{\"services\":{"@ + service_members(resources@.subrange(0, i as int)),
        decreases resources.len() - i,
    {
        let ghost before = out@;
        if i > 0 {
            out.append(",");
        }
        push_service_member(&mut out, &resources[i]);
        assert(resources@.subrange(0, i + 1).drop_last() =~= resources@.subrange(0, i as int));
        if i == 0 {
            assert(out@ =~= before + service_member(resources@[0]));
        } else {
            assert(out@ =~= before + ","@ + service_member(resources@[i as int]));
        }
        assert(out@ =~= "{\"services\":{"@ + service_members(resources@.subrange(0, i + 1)));
        i = i + 1;
    }
    assert(resources@.subrange(0, resources@.len() as int) =~= resources@);
    out.append("}}");
    out
}

/// The result of a rendering: its text, or a context-injection failure
/// carrying the engine's message.
pub fn injection_outcome(outcome: Result<String, String>) -> (r: Result<String, AetherError>)
    ensures
        match outcome {
            Ok(text) => r matches Ok(t) && t@ == text@,
            Err(m) => r matches Err(AetherError::ContextInjection(e)) && e@ == m@,
        },
{
    match outcome {
        Ok(text) => Ok(text),
        Err(m) => Err(AetherError::ContextInjection(m)),
    }
}

/// Renders templates against provisioned resources, in strict mode: a path
/// that names nothing fails the rendering.
pub struct ContextInjector {}

impl ContextInjector {
    /// An injector.
    pub fn new() -> (r: Self) {
        ContextInjector {}
    }

    /// Renders `template` against the context document of `resources`: the
    /// rendered text, or a context-injection failure when the template is
    /// malformed or names a path the document does not hold.
    pub fn render(&self, template: &str, resources: &Vec<ResourceHandle>) -> (r: Result<
        String,
        AetherError,
    >)
        ensures
            match rendered(template@, context_document(resources@)) {
                Some(text) => r matches Ok(t) && t@ == text,
                None => r matches Err(AetherError::ContextInjection(_)),
            },
    {
        let context = context_json(resources);
        let outcome = render_document(template, context.as_str());
        injection_outcome(outcome)
    }
}

} // verus!
