//! Where crawl results go: one record per crawled page, appended to an output
//! file as a JSON line.
use vstd::prelude::*;

verus! {

/// Record written to the output file for each crawled page.
#[derive(Debug, Clone, PartialEq, Eq)]
pub struct CrawlRecord {
    pub url: String,
    pub title: Option<String>,
    pub links_found: usize,
    pub timestamp: String,
}

/// Names the file that crawl results are appended to.
#[derive(Debug, Clone)]
pub struct Storage {
    output_path: String,
}

impl View for Storage {
    type V = Seq<char>;

    closed spec fn view(&self) -> Seq<char> {
        self.output_path@
    }
}

impl Storage {
    /// A storage that writes to the given file path. The file and its parent
    /// directories are created by whoever performs the writes.
    pub fn new(output_path: &str) -> (s: Storage)
        ensures
            s@ == output_path@,
    {
        Storage { output_path: output_path.to_owned() }
    }

    /// Return the path to the output file.
    pub fn path(&self) -> (p: &str)
        ensures
            p@ == self@,
    {
        self.output_path.as_str()
    }
}

} // verus!
