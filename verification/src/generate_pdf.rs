//! A sample drawing as SVG text.
use vstd::prelude::*;

verus! {

/// The sample SVG document: an A4 page with a rectangle, a circle, a line and a text.
pub fn generate_piet_svg() -> (res: String)
    ensures
        res@ == SAMPLE_SVG@,
{
    String::from_str(SAMPLE_SVG)
}

/// The sample SVG document.
pub const SAMPLE_SVG: &'static str = r#"
        <svg width="210mm" height="297mm" viewBox="0 0 210 297" xmlns="http://www.w3.org/2000/svg">
            <rect x="50" y="250" width="100" height="50" fill="red"/>
            <circle cx="130" cy="160" r="30" fill="green"/>
            <line x1="60" y1="120" x2="180" y2="100" stroke="blue" stroke-width="2"/>
            <text x="70" y="80" font-size="24">Hello, Piet!</text>
        </svg>
    "#;

} // verus!
