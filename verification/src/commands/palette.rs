//! The palette command: replies with a link to the emote palette page.

use vstd::prelude::*;
use vstd::string::StringExecFns;

verus! {

/// Replies with the palette page's address when one of its names is invoked.
#[derive(Debug)]
pub struct Palette {
    /// The command names this command answers to, in match order.
    pub names: Vec<String>,
}

/// The names registered for the palette command.
pub open spec fn palette_names() -> Seq<Seq<char>> {
    seq!["palette"@, "emotes"@, "list"@, "ls"@]
}

impl Default for Palette {
    fn default() -> (r: Self)
        ensures
            r.names.deep_view() == palette_names(),
    {
        let names: Vec<String> = vec![
            "palette".to_owned(),
            "emotes".to_owned(),
            "list".to_owned(),
            "ls".to_owned(),
        ];
        proof {
            assert(names.deep_view() =~= palette_names());
        }
        Palette { names }
    }
}

impl Palette {
    pub fn boxed() -> (r: Box<Self>)
        ensures
            r.names.deep_view() == palette_names(),
    {
        Box::new(Self::default())
    }

    /// The message text the command sends back: the palette page under the
    /// configured base address.
    pub fn url(base_url: &str) -> (r: String)
        ensures
            r@ == base_url@ + "/palette"@,
    {
        base_url.to_owned().concat("/palette")
    }
}

} // verus!
