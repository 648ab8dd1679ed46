//! Response composition: appending the live-reload client to HTML bodies
//! when watch mode is on, and passing every other body through untouched.

use vstd::prelude::*;
use vstd::string::*;

verus! {

/// The reload client sent along with HTML pages: it polls the reload route
/// of the given server address and reloads the page when the poll returns.
pub open spec fn spec_reload_script(addr: Seq<char>) -> Seq<char> {
    "<script>\n    async function checkReload() {\n        try {\n            const res = await fetch(\"http://"@
        + addr
        + "/reload\");\n            if(res.ok) {\n                location.reload();\n            }\n        } catch(e) {\n            console.error(e);\n        }\n        setTimeout(checkReload, 1000);\n    }\n    checkReload();\n    </script>"@
}

/// Builds the reload client for the given server address.
pub fn reload_script(addr: &String) -> (r: String)
    ensures
        r@ == spec_reload_script(addr@),
{
    let mut s = String::from_str(
        "<script>\n    async function checkReload() {\n        try {\n            const res = await fetch(\"http://",
    );
    s.append(addr.as_str());
    s.append(
        "/reload\");\n            if(res.ok) {\n                location.reload();\n            }\n        } catch(e) {\n            console.error(e);\n        }\n        setTimeout(checkReload, 1000);\n    }\n    checkReload();\n    </script>",
    );
    s
}

/// What composition returns: the body as read, with the reload client's
/// bytes appended exactly when watch mode is on and the body is HTML.
pub open spec fn spec_compose(body: Seq<u8>, is_html: bool, watch: bool, script: Seq<u8>) -> Seq<
    u8,
> {
    if watch && is_html {
        body + script
    } else {
        body
    }
}

/// Composes a response body.  Bodies that are not HTML, and every body when
/// watch mode is off, pass through byte-identical.
pub fn compose(body: Vec<u8>, is_html: bool, watch: bool, script: &str) -> (out: Vec<u8>)
    ensures
        out@ == spec_compose(body@, is_html, watch, script.spec_bytes()),
{
    if watch && is_html {
        let mut out = body;
        let mut tail = script.as_bytes_vec();
        out.append(&mut tail);
        out
    } else {
        body
    }
}

/// Law: with watch mode off, every body is returned byte-identical,
/// HTML or not.
pub proof fn lemma_watch_off_passes_through(body: Seq<u8>, is_html: bool, script: Seq<u8>)
    ensures
        spec_compose(body, is_html, false, script) == body,
{
}

/// Law: a body that is not HTML is returned byte-identical even in watch
/// mode, and an HTML body in watch mode gains exactly the reload client's
/// bytes at its end.
pub proof fn lemma_watch_on_touches_only_html(body: Seq<u8>, script: Seq<u8>)
    ensures
        spec_compose(body, false, true, script) == body,
        spec_compose(body, true, true, script) == body + script,
{
}

} // verus!
