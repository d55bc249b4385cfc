//! The tabs of the front end.

use vstd::prelude::*;

verus! {

/// A tab of the front end.
#[derive(Debug, Clone, Copy, PartialEq, Eq, Structural)]
pub enum Tab {
    Downloads,
    Scraper,
    Sniffer,
    Ffmpeg,
}

impl Tab {
    /// The label of the tab.
    pub open spec fn label(self) -> Seq<char> {
        match self {
            Tab::Downloads => "📥 Téléchargements"@,
            Tab::Scraper => "🔍 Scraper FZTV"@,
            Tab::Sniffer => "🌐 Sniffer Réseau"@,
            Tab::Ffmpeg => "🎬 FFmpeg"@,
        }
    }

    /// The label under which the tab is shown.
    pub fn name(&self) -> (name: &'static str)
        ensures
            name@ == self.label(),
    {
        match self {
            Tab::Downloads => "📥 Téléchargements",
            Tab::Scraper => "🔍 Scraper FZTV",
            Tab::Sniffer => "🌐 Sniffer Réseau",
            Tab::Ffmpeg => "🎬 FFmpeg",
        }
    }
}

} // verus!
