use vstd::prelude::*;
use vstd::string::StringExecFns;

verus! {

/// A general-education requirement that a course satisfies.
///
/// Twelve categories are recognised by their catalog label; any other label
/// is kept verbatim in `Other`, so that it survives a round trip.
#[derive(Debug)]
pub enum Requirement {
    AmericanCultures,
    AmericanHist,
    ArtsLiterature,
    BiologicalScience,
    EntryLevelWriting,
    HistoricalStudies,
    InternationalStudies,
    PhilosophyValues,
    PhysicalScience,
    ReadingCompA,
    ReadingCompB,
    SocialBehavioral,
    Other(String),
}

/// The mathematical value of a `Requirement`: the same variants, with the
/// label of `Other` as a sequence of characters.
pub ghost enum Category {
    AmericanCultures,
    AmericanHist,
    ArtsLiterature,
    BiologicalScience,
    EntryLevelWriting,
    HistoricalStudies,
    InternationalStudies,
    PhilosophyValues,
    PhysicalScience,
    ReadingCompA,
    ReadingCompB,
    SocialBehavioral,
    Other(Seq<char>),
}

impl View for Requirement {
    type V = Category;

    open spec fn view(&self) -> Category {
        match self {
            Requirement::AmericanCultures => Category::AmericanCultures,
            Requirement::AmericanHist => Category::AmericanHist,
            Requirement::ArtsLiterature => Category::ArtsLiterature,
            Requirement::BiologicalScience => Category::BiologicalScience,
            Requirement::EntryLevelWriting => Category::EntryLevelWriting,
            Requirement::HistoricalStudies => Category::HistoricalStudies,
            Requirement::InternationalStudies => Category::InternationalStudies,
            Requirement::PhilosophyValues => Category::PhilosophyValues,
            Requirement::PhysicalScience => Category::PhysicalScience,
            Requirement::ReadingCompA => Category::ReadingCompA,
            Requirement::ReadingCompB => Category::ReadingCompB,
            Requirement::SocialBehavioral => Category::SocialBehavioral,
            Requirement::Other(s) => Category::Other(s@),
        }
    }
}

/// The categories of a sequence of requirements.
pub open spec fn categories(rs: Seq<Requirement>) -> Seq<Category> {
    rs.map_values(|r: Requirement| r@)
}

/// The catalog label of a category.
pub open spec fn label_of(c: Category) -> Seq<char> {
    match c {
        Category::AmericanCultures => "the American Cultures requirement"@,
        Category::AmericanHist => "the American Hist & Institutions requirement"@,
        Category::ArtsLiterature => "Arts & Literature, L&S Breadth"@,
        Category::BiologicalScience => "Biological Science, L&S Breadth"@,
        Category::EntryLevelWriting => "the Entry Level Writing requirement"@,
        Category::HistoricalStudies => "Historical Studies, L&S Breadth"@,
        Category::InternationalStudies => "International Studies, L&S Breadth"@,
        Category::PhilosophyValues => "Philosophy & Values, L&S Breadth"@,
        Category::PhysicalScience => "Physical Science, L&S Breadth"@,
        Category::ReadingCompA => "the Reading and Composition A requirement"@,
        Category::ReadingCompB => "the Reading and Composition B requirement"@,
        Category::SocialBehavioral => "Social & Behavioral Sciences, L&S Breadth"@,
        Category::Other(s) => s,
    }
}

/// The twelve recognised categories, in declaration order.
pub open spec fn recognised() -> Seq<Category> {
    seq![
        Category::AmericanCultures,
        Category::AmericanHist,
        Category::ArtsLiterature,
        Category::BiologicalScience,
        Category::EntryLevelWriting,
        Category::HistoricalStudies,
        Category::InternationalStudies,
        Category::PhilosophyValues,
        Category::PhysicalScience,
        Category::ReadingCompA,
        Category::ReadingCompB,
        Category::SocialBehavioral,
    ]
}

/// Reads a label, looking through the recognised categories from position `k` on.
pub open spec fn parse_from(s: Seq<char>, k: int) -> Category
    decreases 12 - k,
{
    if k < 0 || k >= 12 {
        Category::Other(s)
    } else if label_of(recognised()[k]) == s {
        recognised()[k]
    } else {
        parse_from(s, k + 1)
    }
}

/// The category that a label stands for: the first recognised category with
/// that label, or `Other` with the label itself.
pub open spec fn parse_label(s: Seq<char>) -> Category {
    parse_from(s, 0)
}

/// Whether a label is that of one of the twelve recognised categories.
pub open spec fn is_recognised_label(s: Seq<char>) -> bool {
    exists|k: int| 0 <= k < 12 && label_of(#[trigger] recognised()[k]) == s
}

impl Requirement {
    /// A recognised requirement by its position in declaration order.
    fn recognised_at(k: usize) -> (r: Requirement)
        requires
            k < 12,
        ensures
            r@ == recognised()[k as int],
    {
        match k {
            0 => Requirement::AmericanCultures,
            1 => Requirement::AmericanHist,
            2 => Requirement::ArtsLiterature,
            3 => Requirement::BiologicalScience,
            4 => Requirement::EntryLevelWriting,
            5 => Requirement::HistoricalStudies,
            6 => Requirement::InternationalStudies,
            7 => Requirement::PhilosophyValues,
            8 => Requirement::PhysicalScience,
            9 => Requirement::ReadingCompA,
            10 => Requirement::ReadingCompB,
            _ => Requirement::SocialBehavioral,
        }
    }

    /// The catalog label of this requirement.
    pub fn label(&self) -> (r: String)
        ensures
            r@ == label_of(self@),
    {
        match self {
            Requirement::AmericanCultures => String::from_str("the American Cultures requirement"),
            Requirement::AmericanHist => String::from_str(
                "the American Hist & Institutions requirement",
            ),
            Requirement::ArtsLiterature => String::from_str("Arts & Literature, L&S Breadth"),
            Requirement::BiologicalScience => String::from_str("Biological Science, L&S Breadth"),
            Requirement::EntryLevelWriting => String::from_str(
                "the Entry Level Writing requirement",
            ),
            Requirement::HistoricalStudies => String::from_str("Historical Studies, L&S Breadth"),
            Requirement::InternationalStudies => String::from_str(
                "International Studies, L&S Breadth",
            ),
            Requirement::PhilosophyValues => String::from_str("Philosophy & Values, L&S Breadth"),
            Requirement::PhysicalScience => String::from_str("Physical Science, L&S Breadth"),
            Requirement::ReadingCompA => String::from_str(
                "the Reading and Composition A requirement",
            ),
            Requirement::ReadingCompB => String::from_str(
                "the Reading and Composition B requirement",
            ),
            Requirement::SocialBehavioral => String::from_str(
                "Social & Behavioral Sciences, L&S Breadth",
            ),
            Requirement::Other(s) => s.clone(),
        }
    }

    /// The requirement that a catalog label stands for; an unrecognised label
    /// becomes `Other` with the label unchanged.
    pub fn from_label(s: String) -> (r: Requirement)
        ensures
            r@ == parse_label(s@),
    {
        let mut k: usize = 0;
        while k < 12
            invariant
                k <= 12,
                parse_label(s@) == parse_from(s@, k as int),
            decreases 12 - k,
        {
            let cand = Requirement::recognised_at(k);
            let l = cand.label();
            if l == s {
                return cand;
            }
            k = k + 1;
        }
        Requirement::Other(s)
    }
}

impl Clone for Requirement {
    fn clone(&self) -> (r: Requirement)
        ensures
            r@ == self@,
    {
        match self {
            Requirement::Other(s) => Requirement::Other(s.clone()),
            Requirement::AmericanCultures => Requirement::AmericanCultures,
            Requirement::AmericanHist => Requirement::AmericanHist,
            Requirement::ArtsLiterature => Requirement::ArtsLiterature,
            Requirement::BiologicalScience => Requirement::BiologicalScience,
            Requirement::EntryLevelWriting => Requirement::EntryLevelWriting,
            Requirement::HistoricalStudies => Requirement::HistoricalStudies,
            Requirement::InternationalStudies => Requirement::InternationalStudies,
            Requirement::PhilosophyValues => Requirement::PhilosophyValues,
            Requirement::PhysicalScience => Requirement::PhysicalScience,
            Requirement::ReadingCompA => Requirement::ReadingCompA,
            Requirement::ReadingCompB => Requirement::ReadingCompB,
            Requirement::SocialBehavioral => Requirement::SocialBehavioral,
        }
    }
}

impl PartialEq for Requirement {
    fn eq(&self, o: &Requirement) -> (r: bool) {
        match (self, o) {
            (Requirement::Other(a), Requirement::Other(b)) => a.eq(b),
            (Requirement::AmericanCultures, Requirement::AmericanCultures) => true,
            (Requirement::AmericanHist, Requirement::AmericanHist) => true,
            (Requirement::ArtsLiterature, Requirement::ArtsLiterature) => true,
            (Requirement::BiologicalScience, Requirement::BiologicalScience) => true,
            (Requirement::EntryLevelWriting, Requirement::EntryLevelWriting) => true,
            (Requirement::HistoricalStudies, Requirement::HistoricalStudies) => true,
            (Requirement::InternationalStudies, Requirement::InternationalStudies) => true,
            (Requirement::PhilosophyValues, Requirement::PhilosophyValues) => true,
            (Requirement::PhysicalScience, Requirement::PhysicalScience) => true,
            (Requirement::ReadingCompA, Requirement::ReadingCompA) => true,
            (Requirement::ReadingCompB, Requirement::ReadingCompB) => true,
            (Requirement::SocialBehavioral, Requirement::SocialBehavioral) => true,
            _ => false,
        }
    }
}

impl vstd::std_specs::cmp::PartialEqSpecImpl for Requirement {
    open spec fn obeys_eq_spec() -> bool {
        true
    }

    open spec fn eq_spec(&self, o: &Requirement) -> bool {
        self@ == o@
    }
}

/// Reading a label and writing it back gives the same label, whatever it is.
pub proof fn lemma_label_round_trip(s: Seq<char>)
    ensures
        label_of(parse_label(s)) == s,
{
    lemma_parse_from(s, 0);
}

/// An unrecognised label is read as `Other` carrying that label.
pub proof fn lemma_unrecognised_label(s: Seq<char>)
    requires
        !is_recognised_label(s),
    ensures
        parse_label(s) == Category::Other(s),
        label_of(parse_label(s)) == s,
{
    lemma_parse_from(s, 0);
}

/// Writing a requirement's label and reading it back gives the same
/// requirement, for every requirement but an `Other` whose label is that of a
/// recognised category.
pub proof fn lemma_requirement_round_trip(c: Category)
    requires
        c matches Category::Other(s) ==> !is_recognised_label(s),
    ensures
        parse_label(label_of(c)) == c,
{
    if let Category::Other(s) = c {
        lemma_unrecognised_label(s);
    } else {
        reveal_strlit("the American Cultures requirement");
        reveal_strlit("the American Hist & Institutions requirement");
        reveal_strlit("Arts & Literature, L&S Breadth");
        reveal_strlit("Biological Science, L&S Breadth");
        reveal_strlit("the Entry Level Writing requirement");
        reveal_strlit("Historical Studies, L&S Breadth");
        reveal_strlit("International Studies, L&S Breadth");
        reveal_strlit("Philosophy & Values, L&S Breadth");
        reveal_strlit("Physical Science, L&S Breadth");
        reveal_strlit("the Reading and Composition A requirement");
        reveal_strlit("the Reading and Composition B requirement");
        reveal_strlit("Social & Behavioral Sciences, L&S Breadth");
        let r = recognised();
        assert(r[0] == Category::AmericanCultures && r[1] == Category::AmericanHist && r[2]
            == Category::ArtsLiterature && r[3] == Category::BiologicalScience && r[4]
            == Category::EntryLevelWriting && r[5] == Category::HistoricalStudies && r[6]
            == Category::InternationalStudies && r[7] == Category::PhilosophyValues && r[8]
            == Category::PhysicalScience && r[9] == Category::ReadingCompA && r[10]
            == Category::ReadingCompB && r[11] == Category::SocialBehavioral);
        assert(label_of(r[0]).len() == 33 && label_of(r[0])[0] == 't' && label_of(r[0])[28] == 'e');
        assert(label_of(r[1]).len() == 44 && label_of(r[1])[0] == 't' && label_of(r[1])[28] == 'i');
        assert(label_of(r[2]).len() == 30 && label_of(r[2])[0] == 'A' && label_of(r[2])[28] == 't');
        assert(label_of(r[3]).len() == 31 && label_of(r[3])[0] == 'B' && label_of(r[3])[28] == 'd');
        assert(label_of(r[4]).len() == 35 && label_of(r[4])[0] == 't' && label_of(r[4])[28] == 'i');
        assert(label_of(r[5]).len() == 31 && label_of(r[5])[0] == 'H' && label_of(r[5])[28] == 'd');
        assert(label_of(r[6]).len() == 34 && label_of(r[6])[0] == 'I' && label_of(r[6])[28] == 'r');
        assert(label_of(r[7]).len() == 32 && label_of(r[7])[0] == 'P' && label_of(r[7])[28] == 'a');
        assert(label_of(r[8]).len() == 29 && label_of(r[8])[0] == 'P' && label_of(r[8])[28] == 'h');
        assert(label_of(r[9]).len() == 41 && label_of(r[9])[0] == 't' && label_of(r[9])[28] == 'A');
        assert(label_of(r[10]).len() == 41 && label_of(r[10])[0] == 't' && label_of(r[10])[28] == 'B');
        assert(label_of(r[11]).len() == 41 && label_of(r[11])[0] == 'S' && label_of(r[11])[28] == ',');
        assert forall|a: int, b: int|
            0 <= a < 12 && 0 <= b < 12 && a != b implies label_of(#[trigger] r[a])
                != label_of(#[trigger] r[b]) by {
            let (x, y) = (label_of(r[a]), label_of(r[b]));
            assert(x.len() != y.len() || x[0] != y[0] || x[28] != y[28]);
        }
        lemma_parse_recognised(c, 0);
    }
}

proof fn lemma_parse_recognised(c: Category, k: int)
    requires
        0 <= k <= 12,
        !(c is Other),
        forall|a: int, b: int|
            0 <= a < 12 && 0 <= b < 12 && a != b ==> label_of(#[trigger] recognised()[a])
                != label_of(#[trigger] recognised()[b]),
        forall|a: int| 0 <= a < k ==> #[trigger] recognised()[a] != c,
    ensures
        parse_from(label_of(c), k) == c,
    decreases 12 - k,
{
    let r = recognised();
    assert(r[0] == Category::AmericanCultures && r[1] == Category::AmericanHist && r[2]
        == Category::ArtsLiterature && r[3] == Category::BiologicalScience && r[4]
        == Category::EntryLevelWriting && r[5] == Category::HistoricalStudies && r[6]
        == Category::InternationalStudies && r[7] == Category::PhilosophyValues && r[8]
        == Category::PhysicalScience && r[9] == Category::ReadingCompA && r[10]
        == Category::ReadingCompB && r[11] == Category::SocialBehavioral);
    if k < 12 {
        if r[k] != c {
            lemma_parse_recognised(c, k + 1);
        }
    }
}

proof fn lemma_parse_from(s: Seq<char>, k: int)
    requires
        0 <= k <= 12,
    ensures
        label_of(parse_from(s, k)) == s,
        !is_recognised_label(s) ==> parse_from(s, k) == Category::Other(s),
    decreases 12 - k,
{
    if k < 12 {
        if label_of(recognised()[k]) != s {
            lemma_parse_from(s, k + 1);
        }
    }
}

} // verus!
