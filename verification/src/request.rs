//! The drawing server's address and the messages of a save request.
use vstd::prelude::*;
use vstd::string::StringExecFns;

verus! {

/// The server used when none was set.
pub const DEFAULT_SERVER_URL: &'static str = "http://127.0.0.1:1073";

/// The server address: the one that was set, else the default.
pub fn server_url(stored: Option<&String>) -> (res: String)
    ensures
        res@ == match stored {
            Some(s) => s@,
            None => DEFAULT_SERVER_URL@,
        },
{
    match stored {
        Some(s) => s.clone(),
        None => String::from_str(DEFAULT_SERVER_URL),
    }
}

/// The address that saves a drawing.
pub fn save_svg_url(server: &str) -> (res: String)
    ensures
        res@ == server@ + "/save_svg"@,
{
    let mut s = String::from_str(server);
    s.append("/save_svg");
    s
}

/// The address that lists the saved drawings.
pub fn get_svgs_url(server: &str) -> (res: String)
    ensures
        res@ == server@ + "/get_svgs"@,
{
    let mut s = String::from_str(server);
    s.append("/get_svgs");
    s
}

/// The answer to a save request, from whether the server's response was OK.
pub fn save_result(response_ok: bool) -> (res: Result<&'static str, &'static str>)
    ensures
        response_ok ==> (res matches Ok(m) && m@ == "SVG saved successfully"@),
        !response_ok ==> (res matches Err(m) && m@ == "Failed to save SVG"@),
{
    if response_ok {
        Ok("SVG saved successfully")
    } else {
        Err("Failed to save SVG")
    }
}

} // verus!
