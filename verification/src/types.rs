//! What is known of a window on the screen, and which browser it belongs
//! to.

use crate::text::{contains, occurs_in, to_chars};
use vstd::prelude::*;

verus! {

/// What is known of a window.
#[derive(Debug)]
pub struct WindowInformation {
    pub time: u64,
    pub title: String,
    pub class: Vec<String>,
    pub execpath: String,
    /// The location of the active tab. Only a browser's window has one.
    pub url: Option<String>,
}

/// The browsers that are told apart.
#[derive(Debug, Clone, Copy, PartialEq, Eq, Structural)]
pub enum Browser {
    Chrome,
    Opera,
    Brave,
    Edge,
    Firefox,
    Safari,
    Other,
}

/// The text that `str::to_lowercase` makes of a text.
pub uninterp spec fn lowercase(text: Seq<char>) -> Seq<char>;

/// Calls `str::to_lowercase`, which maps each character to its lowercase
/// form as Unicode defines it. The result is a function of the text alone;
/// the contract gives it its name and claims nothing else.
#[verifier::external_body]
fn to_lowercase(s: &str) -> (r: String)
    ensures
        r@ == lowercase(s@),
{
    s.to_lowercase()
}

/// The browser that a window class in lowercase names: the first of
/// `chrome`, `firefox`, `opera`, `brave` and `msedge` that stands in it.
pub open spec fn browser_of_class(lower: Seq<char>) -> Option<Browser> {
    if occurs_in("chrome"@, lower) {
        Some(Browser::Chrome)
    } else if occurs_in("firefox"@, lower) {
        Some(Browser::Firefox)
    } else if occurs_in("opera"@, lower) {
        Some(Browser::Opera)
    } else if occurs_in("brave"@, lower) {
        Some(Browser::Brave)
    } else if occurs_in("msedge"@, lower) {
        Some(Browser::Edge)
    } else {
        None
    }
}

/// The browser that the first of `classes` names that names one.
pub open spec fn browser_of_classes(classes: Seq<String>) -> Option<Browser>
    decreases classes.len(),
{
    if classes.len() == 0 {
        None
    } else {
        match browser_of_class(lowercase(classes[0]@)) {
            Some(b) => Some(b),
            None => browser_of_classes(classes.skip(1)),
        }
    }
}

/// Computes `browser_of_class`.
pub fn class_browser(lower: &str) -> (r: Option<Browser>)
    ensures
        r == browser_of_class(lower@),
{
    let chars = to_chars(lower);
    if contains(chars.as_slice(), to_chars("chrome").as_slice()) {
        Some(Browser::Chrome)
    } else if contains(chars.as_slice(), to_chars("firefox").as_slice()) {
        Some(Browser::Firefox)
    } else if contains(chars.as_slice(), to_chars("opera").as_slice()) {
        Some(Browser::Opera)
    } else if contains(chars.as_slice(), to_chars("brave").as_slice()) {
        Some(Browser::Brave)
    } else if contains(chars.as_slice(), to_chars("msedge").as_slice()) {
        Some(Browser::Edge)
    } else {
        None
    }
}

impl WindowInformation {
    /// The browser that the window belongs to, judged by its classes: see
    /// `browser_of_classes`.
    pub fn get_browser_type(&self) -> (r: Option<Browser>)
        ensures
            r == browser_of_classes(self.class@),
    {
        let mut i: usize = 0;
        assert(self.class@.skip(0) =~= self.class@);
        while i < self.class.len()
            invariant
                i <= self.class@.len(),
                browser_of_classes(self.class@) == browser_of_classes(self.class@.skip(i as int)),
            decreases self.class@.len() - i,
        {
            let lower = to_lowercase(self.class[i].as_str());
            let found = class_browser(lower.as_str());
            proof {
                let rest = self.class@.skip(i as int);
                assert(rest[0] == self.class@[i as int]);
                assert(rest.skip(1) =~= self.class@.skip(i + 1));
            }
            if found.is_some() {
                return found;
            }
            i = i + 1;
        }
        None
    }
}

} // verus!
