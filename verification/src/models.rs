//! The records that the retrieval engine reads.

use vstd::prelude::*;

verus! {

/// A saved piece of text with its metadata.
#[derive(Debug)]
pub struct Snippet {
    pub name: String,
    pub description: String,
    pub content: String,
    pub executable: bool,
    pub tags: Vec<String>,
    /// Seconds since the Unix epoch.
    pub created_at: i64,
    /// Seconds since the Unix epoch.
    pub updated_at: i64,
}

/// What a [`Snippet`] holds, as mathematical values.
pub ghost struct SnippetView {
    pub name: Seq<char>,
    pub description: Seq<char>,
    pub content: Seq<char>,
    pub executable: bool,
    pub tags: Seq<Seq<char>>,
    pub created_at: int,
    pub updated_at: int,
}

/// The texts of a sequence of strings.
pub open spec fn texts(strings: Seq<String>) -> Seq<Seq<char>> {
    strings.map_values(|s: String| s@)
}

/// The views of a sequence of snippets.
pub open spec fn snippet_views(snippets: Seq<Snippet>) -> Seq<SnippetView> {
    snippets.map_values(|s: Snippet| s@)
}

impl View for Snippet {
    type V = SnippetView;

    open spec fn view(&self) -> SnippetView {
        SnippetView {
            name: self.name@,
            description: self.description@,
            content: self.content@,
            executable: self.executable,
            tags: texts(self.tags@),
            created_at: self.created_at as int,
            updated_at: self.updated_at as int,
        }
    }
}

/// Copies a list of strings, text by text.
pub fn clone_strings(strings: &Vec<String>) -> (copy: Vec<String>)
    ensures
        texts(copy@) == texts(strings@),
{
    let mut copy: Vec<String> = Vec::new();
    let mut i: usize = 0;
    while i < strings.len()
        invariant
            i <= strings.len(),
            copy.len() == i,
            forall|k: int| 0 <= k < i ==> copy[k]@ == strings[k]@,
        decreases strings.len() - i,
    {
        copy.push(strings[i].clone());
        i += 1;
    }
    assert(texts(copy@) =~= texts(strings@));
    copy
}

impl Clone for Snippet {
    fn clone(&self) -> (copy: Self)
        ensures
            copy@ == self@,
    {
        Snippet {
            name: self.name.clone(),
            description: self.description.clone(),
            content: self.content.clone(),
            executable: self.executable,
            tags: clone_strings(&self.tags),
            created_at: self.created_at,
            updated_at: self.updated_at,
        }
    }
}

/// The snippets of one user, in the order in which they were saved.
#[derive(Debug)]
pub struct SnippetStore {
    pub snippets: Vec<Snippet>,
}

impl View for SnippetStore {
    type V = Seq<SnippetView>;

    open spec fn view(&self) -> Seq<SnippetView> {
        snippet_views(self.snippets@)
    }
}

} // verus!
