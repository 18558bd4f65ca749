//! Subdivision scales and sample kits, each with its fixed display text.

use vstd::prelude::*;
use vstd::string::*;

verus! {

/// How many scheduler ticks fall on one quarter-note beat.
#[derive(Debug, Clone, Copy, PartialEq, Eq, Structural)]
pub enum SequenceScale {
    OneFourth,
    OneEighth,
    OneSixteenth,
}

impl SequenceScale {
    /// The number of ticks per quarter-note beat: 1, 2 or 4.
    pub open spec fn spec_multiplier(self) -> int {
        match self {
            SequenceScale::OneFourth => 1,
            SequenceScale::OneEighth => 2,
            SequenceScale::OneSixteenth => 4,
        }
    }

    /// The text shown for this scale.
    pub open spec fn spec_label(self) -> Seq<char> {
        match self {
            SequenceScale::OneFourth => "1/4"@,
            SequenceScale::OneEighth => "1/8"@,
            SequenceScale::OneSixteenth => "1/16"@,
        }
    }

    /// The number of ticks per quarter-note beat.
    pub fn multiplier(self) -> (m: u32)
        ensures
            m == self.spec_multiplier(),
            m == 1 || m == 2 || m == 4,
    {
        match self {
            SequenceScale::OneFourth => 1,
            SequenceScale::OneEighth => 2,
            SequenceScale::OneSixteenth => 4,
        }
    }

    /// The text shown for this scale.
    pub fn to_string(&self) -> (text: String)
        ensures
            text@ == self.spec_label(),
    {
        match self {
            SequenceScale::OneFourth => String::from_str("1/4"),
            SequenceScale::OneEighth => String::from_str("1/8"),
            SequenceScale::OneSixteenth => String::from_str("1/16"),
        }
    }

    /// The scales an editor offers, in display order.
    pub fn options() -> (all: Vec<SequenceScale>)
        ensures
            all@ == seq![
                SequenceScale::OneFourth,
                SequenceScale::OneEighth,
                SequenceScale::OneSixteenth,
            ],
    {
        let mut all: Vec<SequenceScale> = Vec::new();
        all.push(SequenceScale::OneFourth);
        all.push(SequenceScale::OneEighth);
        all.push(SequenceScale::OneSixteenth);
        proof {
            assert(all@ =~= seq![
                SequenceScale::OneFourth,
                SequenceScale::OneEighth,
                SequenceScale::OneSixteenth,
            ]);
        }
        all
    }
}

/// A drum kit: the folder below the sample root that holds its files.
#[derive(Debug, Clone, Copy, PartialEq, Eq, Structural)]
pub enum SampleFolder {
    NineONine,
    EightOEight,
}

impl SampleFolder {
    /// The folder's name on disk, which is also its display text.
    pub open spec fn spec_label(self) -> Seq<char> {
        match self {
            SampleFolder::NineONine => "909"@,
            SampleFolder::EightOEight => "TR-808 Kit"@,
        }
    }

    /// The folder's name on disk.
    pub fn to_string(&self) -> (text: String)
        ensures
            text@ == self.spec_label(),
    {
        match self {
            SampleFolder::NineONine => String::from_str("909"),
            SampleFolder::EightOEight => String::from_str("TR-808 Kit"),
        }
    }

    /// The kits an editor offers, in display order.
    pub fn options() -> (all: Vec<SampleFolder>)
        ensures
            all@ == seq![SampleFolder::NineONine, SampleFolder::EightOEight],
    {
        let mut all: Vec<SampleFolder> = Vec::new();
        all.push(SampleFolder::NineONine);
        all.push(SampleFolder::EightOEight);
        proof {
            assert(all@ =~= seq![SampleFolder::NineONine, SampleFolder::EightOEight]);
        }
        all
    }

    /// The directory of this kit below `root`: the root, a slash, the kit's folder.
    pub fn directory(&self, root: &str) -> (path: String)
        ensures
            path@ == root@ + "/"@ + self.spec_label(),
    {
        let mut path = String::from_str(root);
        path.append("/");
        let folder = self.to_string();
        path.append(folder.as_str());
        path
    }
}

} // verus!
