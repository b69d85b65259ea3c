//! Recipes, and the requests and responses that come of them.

use crate::template::TemplateString;
use crate::text::{lemma_position, position, same_text, text_of};
use vstd::prelude::*;

verus! {

/// A named pattern for a request: its URL, the values of its headers and its
/// body are templates.
pub struct Recipe {
    pub id: String,
    pub method: String,
    pub url: TemplateString,
    pub headers: Vec<(String, TemplateString)>,
    pub body: Option<TemplateString>,
}

/// A request ready to be sent: what a recipe renders to.
#[derive(Clone, Debug, PartialEq, Eq)]
pub struct Request {
    /// The recipe that the request was rendered from.
    pub recipe_id: String,
    /// The profile that its fields were taken from.
    pub profile_id: Option<String>,
    pub method: String,
    pub url: String,
    pub headers: Vec<(String, String)>,
    pub body: Option<String>,
}

/// What came back for a request.
#[derive(Clone, Debug, PartialEq, Eq)]
pub struct Response {
    pub status: u16,
    pub body: String,
}

/// A request as text.
pub struct RequestText {
    pub recipe_id: Seq<char>,
    pub profile_id: Option<Seq<char>>,
    pub method: Seq<char>,
    pub url: Seq<char>,
    pub headers: Seq<(Seq<char>, Seq<char>)>,
    pub body: Option<Seq<char>>,
}

/// A list of strings as text.
pub open spec fn texts(strings: Seq<String>) -> Seq<Seq<char>> {
    strings.map_values(|s: String| s@)
}

/// A list of headers as text.
pub open spec fn header_texts(headers: Seq<(String, String)>) -> Seq<(Seq<char>, Seq<char>)> {
    headers.map_values(|h: (String, String)| (h.0@, h.1@))
}

impl View for Request {
    type V = RequestText;

    open spec fn view(&self) -> RequestText {
        RequestText {
            recipe_id: self.recipe_id@,
            profile_id: text_of(self.profile_id),
            method: self.method@,
            url: self.url@,
            headers: header_texts(self.headers@),
            body: text_of(self.body),
        }
    }
}

impl Recipe {
    /// The number of templates in the recipe: the URL, one for each header,
    /// and the body where there is one.
    pub open spec fn template_count(&self) -> int {
        1 + self.headers@.len() + if self.body is Some {
            1int
        } else {
            0int
        }
    }

    /// Template number `slot`, in the order in which the templates are
    /// rendered: the URL, the headers' values from the first to the last,
    /// the body.
    pub open spec fn template_at(&self, slot: int) -> Option<Seq<char>> {
        if slot == 0 {
            Some(self.url@)
        } else if 1 <= slot <= self.headers@.len() {
            Some(self.headers@[slot - 1].1@)
        } else if slot == self.headers@.len() + 1 && self.body is Some {
            Some(self.body->0@)
        } else {
            None
        }
    }

    /// The request made of the recipe's rendered templates, `done[slot]`
    /// being what template number `slot` rendered to.
    pub open spec fn assembled(&self, profile_id: Option<Seq<char>>, done: Seq<Seq<char>>)
        -> RequestText {
        RequestText {
            recipe_id: self.id@,
            profile_id,
            method: self.method@,
            url: done[0],
            headers: Seq::new(self.headers@.len(), |i: int| (self.headers@[i].0@, done[i + 1])),
            body: if self.body is Some {
                Some(done[self.headers@.len() as int + 1])
            } else {
                None
            },
        }
    }

    /// Template number `slot`.
    pub fn template(&self, slot: usize) -> (template: Option<&TemplateString>)
        ensures
            match template {
                Some(t) => self.template_at(slot as int) == Some(t@),
                None => self.template_at(slot as int) is None,
            },
            template is Some <==> slot < self.template_count(),
    {
        if slot == 0 {
            Some(&self.url)
        } else if slot - 1 < self.headers.len() {
            Some(&self.headers[slot - 1].1)
        } else if slot - 1 == self.headers.len() {
            match &self.body {
                Some(body) => Some(body),
                None => None,
            }
        } else {
            None
        }
    }

    /// Makes the request out of the recipe's rendered templates.
    pub fn assemble(&self, profile_id: &Option<String>, done: &Vec<String>) -> (request: Request)
        requires
            done.len() == self.template_count(),
        ensures
            request@ == self.assembled(text_of(*profile_id), texts(done@)),
    {
        let mut headers: Vec<(String, String)> = Vec::new();
        let mut i: usize = 0;
        while i < self.headers.len()
            invariant
                i <= self.headers.len(),
                done.len() == self.template_count(),
                headers.len() == i,
                forall|j: int|
                    0 <= j < i ==> (#[trigger] headers@[j]).0@ == self.headers@[j].0@
                        && headers@[j].1@ == done@[j + 1]@,
            decreases self.headers.len() - i,
        {
            headers.push((self.headers[i].0.clone(), done[i + 1].clone()));
            i += 1;
        }
        let body = match &self.body {
            Some(_) => Some(done[self.headers.len() + 1].clone()),
            None => None,
        };
        let profile = match profile_id {
            Some(id) => Some(id.clone()),
            None => None,
        };
        let request = Request {
            recipe_id: self.id.clone(),
            profile_id: profile,
            method: self.method.clone(),
            url: done[0].clone(),
            headers,
            body,
        };
        assert(request@.headers =~= self.assembled(text_of(*profile_id), texts(done@)).headers);
        request
    }
}

/// The ids of a list of recipes.
pub open spec fn recipe_ids(recipes: Seq<Recipe>) -> Seq<Seq<char>> {
    recipes.map_values(|recipe: Recipe| recipe.id@)
}

/// The position of the first recipe with this id.
pub open spec fn recipe_index(recipes: Seq<Recipe>, id: Seq<char>) -> Option<int> {
    position(recipe_ids(recipes), id)
}

/// Finds a recipe by its id.
pub fn find_recipe(recipes: &Vec<Recipe>, id: &str) -> (found: Option<usize>)
    ensures
        match found {
            Some(i) => recipe_index(recipes@, id@) == Some(i as int) && i < recipes.len(),
            None => recipe_index(recipes@, id@) is None,
        },
{
    let mut i: usize = 0;
    while i < recipes.len()
        invariant
            i <= recipes.len(),
            forall|j: int| 0 <= j < i ==> recipe_ids(recipes@)[j] != id@,
        decreases recipes.len() - i,
    {
        if same_text(recipes[i].id.as_str(), id) {
            proof {
                let ids = recipe_ids(recipes@);
                lemma_position(ids, id@);
                assert(ids[i as int] == id@);
            }
            return Some(i);
        }
        i += 1;
    }
    proof {
        lemma_position(recipe_ids(recipes@), id@);
    }
    None
}

} // verus!
