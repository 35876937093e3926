//! The catalog: which title belongs to which application id.

use vstd::prelude::*;
use vstd::string::StringExecFns;
use crate::screenshot::UNKNOWN_TITLE;
use crate::text::{decimal, decimal_of};

verus! {

/// Titles by application id. A later entry for an id replaces an earlier one.
#[derive(Debug, Default)]
pub struct Catalog {
    /// The entries in the order in which they were added: id, then title.
    pub entries: Vec<(String, String)>,
}

/// The title that the entries give for `id`: that of the last entry with it.
pub open spec fn title_in(entries: Seq<(Seq<char>, Seq<char>)>, id: Seq<char>) -> Option<Seq<char>>
    decreases entries.len(),
{
    if entries.len() == 0 {
        None
    } else if entries.last().0 == id {
        Some(entries.last().1)
    } else {
        title_in(entries.drop_last(), id)
    }
}

/// The title under which an application is listed: the catalog's, or the
/// placeholder where the catalog has none.
pub open spec fn title_or_unknown(entries: Seq<(Seq<char>, Seq<char>)>, id: Seq<char>) -> Seq<char> {
    match title_in(entries, id) {
        Some(title) => title,
        None => UNKNOWN_TITLE@,
    }
}

impl View for Catalog {
    type V = Seq<(Seq<char>, Seq<char>)>;

    open spec fn view(&self) -> Seq<(Seq<char>, Seq<char>)> {
        Seq::new(self.entries@.len(), |i: int| (self.entries@[i].0@, self.entries@[i].1@))
    }
}

impl Catalog {
    /// A catalog without entries.
    pub fn new() -> (r: Catalog)
        ensures
            r@ == Seq::<(Seq<char>, Seq<char>)>::empty(),
    {
        let r = Catalog { entries: Vec::new() };
        proof {
            assert(r@ =~= Seq::<(Seq<char>, Seq<char>)>::empty());
        }
        r
    }

    /// Adds an entry; it replaces any earlier entry for the same id.
    pub fn insert(&mut self, id: String, title: String)
        ensures
            final(self)@ == old(self)@.push((id@, title@)),
    {
        self.entries.push((id, title));
        proof {
            assert(self@ =~= old(self)@.push((id@, title@)));
        }
    }

    /// Adds an application by its number, under the number's decimal form.
    pub fn insert_app(&mut self, appid: u32, name: String)
        ensures
            final(self)@ == old(self)@.push((decimal_of(appid as nat), name@)),
    {
        self.insert(decimal(appid), name);
    }

    /// The title of the application `id`, if the catalog has one.
    pub fn title(&self, id: &String) -> (r: Option<String>)
        ensures
            match r {
                Some(title) => title_in(self@, id@) == Some(title@),
                None => title_in(self@, id@).is_none(),
            },
    {
        let mut i: usize = self.entries.len();
        proof {
            assert(self@.take(i as int) =~= self@);
        }
        while i > 0
            invariant
                i <= self.entries@.len(),
                title_in(self@, id@) == title_in(self@.take(i as int), id@),
            decreases i,
        {
            proof {
                assert(self@.take(i as int).drop_last() =~= self@.take(i - 1));
            }
            i = i - 1;
            if self.entries[i].0 == *id {
                return Some(self.entries[i].1.clone());
            }
        }
        None
    }

    /// The title under which the application `id` is listed.
    pub fn title_or_unknown(&self, id: &String) -> (r: String)
        ensures
            r@ == title_or_unknown(self@, id@),
    {
        match self.title(id) {
            Some(title) => title,
            None => String::from_str(UNKNOWN_TITLE),
        }
    }
}


/// The entries that a list of applications stands for: each number in
/// decimal, with its name.
pub open spec fn entries_of(apps: Seq<(u32, String)>) -> Seq<(Seq<char>, Seq<char>)> {
    Seq::new(apps.len(), |i: int| (decimal_of(apps[i].0 as nat), apps[i].1@))
}

impl Catalog {
    /// Adds the applications in the order of the list.
    pub fn load(&mut self, apps: &Vec<(u32, String)>)
        ensures
            final(self)@ == old(self)@ + entries_of(apps@),
    {
        let mut i: usize = 0;
        proof {
            assert(self@ =~= old(self)@ + entries_of(apps@).take(0));
        }
        while i < apps.len()
            invariant
                i <= apps@.len(),
                self@ == old(self)@ + entries_of(apps@).take(i as int),
            decreases apps.len() - i,
        {
            self.insert_app(apps[i].0, apps[i].1.clone());
            proof {
                assert(self@ =~= old(self)@ + entries_of(apps@).take(i + 1));
            }
            i = i + 1;
        }
        proof {
            assert(entries_of(apps@).take(i as int) =~= entries_of(apps@));
        }
    }
}

} // verus!
