//! The five course categories, with their storage tags, labels and colors.
use vstd::prelude::*;

verus! {

/// The track a course belongs to. Every stored course has exactly one.
#[derive(Clone, Copy, Debug, PartialEq, Eq, Structural)]
pub enum Category {
    Dev,
    Infra,
    DevInfra,
    Marketing,
    Common,
}

/// The order in which the store is asked for each category's courses.
pub open spec fn load_order() -> Seq<Category> {
    seq![Category::Dev, Category::Infra, Category::DevInfra, Category::Marketing, Category::Common]
}

/// The order in which courses are shown: note that `Common` comes before `Marketing`.
pub open spec fn display_order() -> Seq<Category> {
    seq![Category::Dev, Category::Infra, Category::DevInfra, Category::Common, Category::Marketing]
}

impl Category {
    /// The lowercase identifier under which the category is stored.
    pub open spec fn tag_spec(self) -> Seq<char> {
        match self {
            Category::Dev => "dev"@,
            Category::Infra => "infra"@,
            Category::DevInfra => "devinfra"@,
            Category::Marketing => "marketing"@,
            Category::Common => "common"@,
        }
    }

    /// The human-readable label.
    pub open spec fn label_spec(self) -> Seq<char> {
        match self {
            Category::Dev => "Dev"@,
            Category::Infra => "Infra"@,
            Category::DevInfra => "Dev/Infra"@,
            Category::Marketing => "Marketing"@,
            Category::Common => "Tronc Commun"@,
        }
    }

    /// The accent color of a chat message, as `0xRRGGBB`.
    pub open spec fn embed_color_spec(self) -> u32 {
        match self {
            Category::Dev => 0x007BFF,
            Category::Infra => 0x28A745,
            Category::DevInfra => 0x17A2B8,
            Category::Marketing => 0xDC3545,
            Category::Common => 0xFFC107,
        }
    }

    /// The background color of a calendar event, as a CSS hex color.
    pub open spec fn web_color_spec(self) -> Seq<char> {
        match self {
            Category::Dev => "#007bff"@,
            Category::Infra => "#28a745"@,
            Category::DevInfra => "#17a2b8"@,
            Category::Marketing => "#dc3545"@,
            Category::Common => "#ffc107"@,
        }
    }

    pub fn tag(&self) -> (r: &'static str)
        ensures
            r@ == self.tag_spec(),
    {
        match self {
            Category::Dev => "dev",
            Category::Infra => "infra",
            Category::DevInfra => "devinfra",
            Category::Marketing => "marketing",
            Category::Common => "common",
        }
    }

    /// Finds the category stored under `tag`.
    pub fn from_tag(tag: &str) -> (r: Option<Category>)
        ensures
            r matches Some(c) ==> c.tag_spec() == tag@,
            r is None ==> forall|c: Category| c.tag_spec() != tag@,
    {
        let all = [Category::Dev, Category::Infra, Category::DevInfra, Category::Marketing, Category::Common];
        let mut i: usize = 0;
        while i < 5
            invariant
                0 <= i <= 5,
                all@ == load_order(),
                forall|j: int| 0 <= j < i ==> all@[j].tag_spec() != tag@,
            decreases 5 - i,
        {
            let c = all[i];
            if str_equal(c.tag(), tag) {
                return Some(c);
            }
            i = i + 1;
        }
        proof {
            assert forall|c: Category| c.tag_spec() != tag@ by {
                assert(load_order().contains(c)) by {
                    match c {
                        Category::Dev => assert(load_order()[0] == c),
                        Category::Infra => assert(load_order()[1] == c),
                        Category::DevInfra => assert(load_order()[2] == c),
                        Category::Marketing => assert(load_order()[3] == c),
                        Category::Common => assert(load_order()[4] == c),
                    }
                }
            }
        }
        None
    }

    pub fn label(&self) -> (r: String)
        ensures
            r@ == self.label_spec(),
    {
        match self {
            Category::Dev => String::from_str("Dev"),
            Category::Infra => String::from_str("Infra"),
            Category::DevInfra => String::from_str("Dev/Infra"),
            Category::Marketing => String::from_str("Marketing"),
            Category::Common => String::from_str("Tronc Commun"),
        }
    }

    pub fn embed_color(&self) -> (r: u32)
        ensures
            r == self.embed_color_spec(),
    {
        match self {
            Category::Dev => 0x007BFF,
            Category::Infra => 0x28A745,
            Category::DevInfra => 0x17A2B8,
            Category::Marketing => 0xDC3545,
            Category::Common => 0xFFC107,
        }
    }

    pub fn web_color(&self) -> (r: String)
        ensures
            r@ == self.web_color_spec(),
    {
        match self {
            Category::Dev => String::from_str("#007bff"),
            Category::Infra => String::from_str("#28a745"),
            Category::DevInfra => String::from_str("#17a2b8"),
            Category::Marketing => String::from_str("#dc3545"),
            Category::Common => String::from_str("#ffc107"),
        }
    }
}

/// Compares two strings character by character.
pub fn str_equal(a: &str, b: &str) -> (r: bool)
    ensures
        r == (a@ == b@),
{
    let n = a.unicode_len();
    if n != b.unicode_len() {
        return false;
    }
    let mut i: usize = 0;
    while i < n
        invariant
            n == a@.len() == b@.len(),
            0 <= i <= n,
            a@.subrange(0, i as int) == b@.subrange(0, i as int),
        decreases n - i,
    {
        if a.get_char(i) != b.get_char(i) {
            return false;
        }
        assert(a@.subrange(0, i + 1) == a@.subrange(0, i as int).push(a@[i as int]));
        assert(b@.subrange(0, i + 1) == b@.subrange(0, i as int).push(b@[i as int]));
        i = i + 1;
    }
    assert(a@ == a@.subrange(0, n as int));
    assert(b@ == b@.subrange(0, n as int));
    true
}

} // verus!
