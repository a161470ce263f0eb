use crate::text;
use crate::text::Text;
use vstd::prelude::*;

verus! {

/// The DNS settings to apply to the system.
#[derive(Debug, Default, PartialEq, Eq)]
pub struct OSConfig {
    /// The addresses of the nameservers to ask.
    pub nameservers: Vec<String>,
    /// The domains to try for names without dots.
    pub search_domains: Vec<String>,
    /// The domains whose names the nameservers answer for.
    pub match_domains: Vec<String>,
}

/// The texts of the DNS settings.
pub struct OSConfigView {
    pub nameservers: Seq<Text>,
    pub search_domains: Seq<Text>,
    pub match_domains: Seq<Text>,
}

impl View for OSConfig {
    type V = OSConfigView;

    open spec fn view(&self) -> OSConfigView {
        OSConfigView {
            nameservers: text::texts(self.nameservers@),
            search_domains: text::texts(self.search_domains@),
            match_domains: text::texts(self.match_domains@),
        }
    }
}

} // verus!
