use vstd::prelude::*;
use vstd::utf8::is_char_boundary;
use vstd::string::StringSliceAdditionalSpecFns;
use crate::errors::AnalysisError;
use crate::report::FileLocation;

verus! {

/// A registered source file.
pub struct SourceFile {
    pub name: String,
    pub source: String,
    /// Whether the file was supplied by the user rather than pulled in as a library.
    pub user_input: bool,
}

/// The source files of a run; a file's id is its position.
pub struct FileLibrary {
    files: Vec<SourceFile>,
}

/// The UTF-8 bytes of a text.
pub open spec fn bytes_of(s: Seq<char>) -> Seq<u8> {
    vstd::utf8::encode_utf8(s)
}

/// The span `loc` is in bounds and starts and ends on character boundaries of `bytes`.
pub open spec fn is_valid_span(bytes: Seq<u8>, loc: FileLocation) -> bool {
    &&& loc.start <= loc.end <= bytes.len()
    &&& is_char_boundary(bytes, loc.start as int)
    &&& is_char_boundary(bytes.subrange(loc.start as int, bytes.len() as int), loc.end - loc.start)
}

impl FileLibrary {
    pub closed spec fn sources(&self) -> Seq<Seq<char>> {
        self.files@.map_values(|f: SourceFile| f.source@)
    }

    pub closed spec fn user_inputs(&self) -> Seq<bool> {
        self.files@.map_values(|f: SourceFile| f.user_input)
    }

    pub open spec fn spec_is_user_input(&self, file_id: usize) -> bool {
        file_id < self.user_inputs().len() && self.user_inputs()[file_id as int]
    }

    pub fn new() -> (r: Self)
        ensures
            r.sources().len() == 0,
            r.user_inputs().len() == 0,
    {
        let r = FileLibrary { files: Vec::new() };
        assert(r.sources() =~= Seq::<Seq<char>>::empty());
        r
    }

    /// Registers a file and returns its id.
    pub fn add_file(&mut self, name: String, source: String, user_input: bool) -> (r: usize)
        requires
            old(self).sources().len() < usize::MAX,
        ensures
            r == old(self).sources().len(),
            final(self).sources() == old(self).sources().push(source@),
            final(self).user_inputs() == old(self).user_inputs().push(user_input),
    {
        let id = self.files.len();
        let ghost s = source@;
        self.files.push(SourceFile { name, source, user_input });
        assert(self.sources() =~= old(self).sources().push(s));
        assert(self.user_inputs() =~= old(self).user_inputs().push(user_input));
        id
    }

    /// Whether `file_id` names a registered file supplied by the user.
    pub fn is_user_input(&self, file_id: usize) -> (r: bool)
        ensures
            r == self.spec_is_user_input(file_id),
    {
        file_id < self.files.len() && self.files[file_id].user_input
    }

    /// The text of file `file_id` between the byte offsets of `location`.
    pub fn source_text(&self, file_id: usize, location: &FileLocation) -> (r: Result<String, AnalysisError>)
        ensures
            file_id >= self.sources().len() ==> r == Err::<String, AnalysisError>(
                AnalysisError::UnknownFile { file_id },
            ),
            file_id < self.sources().len() ==> {
                let bytes = bytes_of(self.sources()[file_id as int]);
                match r {
                    Ok(t) => is_valid_span(bytes, *location) && bytes_of(t@) == bytes.subrange(
                        location.start as int,
                        location.end as int,
                    ),
                    Err(e) => !is_valid_span(bytes, *location) && e == AnalysisError::InvalidLocation {
                        file_id,
                        file_location: *location,
                    },
                }
            },
    {
        if file_id >= self.files.len() {
            return Err(AnalysisError::UnknownFile { file_id });
        }
        let src: &str = self.files[file_id].source.as_str();
        let ghost bytes = src.spec_bytes();
        assert(bytes == bytes_of(self.sources()[file_id as int]));
        let invalid = AnalysisError::InvalidLocation { file_id, file_location: *location };
        if location.end > src.as_bytes().len() || location.start > location.end {
            return Err(invalid);
        }
        if !src.is_char_boundary(location.start) {
            return Err(invalid);
        }
        let (_head, rest) = src.split_at(location.start);
        if !rest.is_char_boundary(location.end - location.start) {
            return Err(invalid);
        }
        let (text, _tail) = rest.split_at(location.end - location.start);
        assert(text.spec_bytes() =~= bytes.subrange(location.start as int, location.end as int));
        Ok(text.to_owned())
    }
}

} // verus!
