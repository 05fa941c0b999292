//! The form of an upload request: what arrives field by field, and the
//! checks that turn it into a note to store.

use crate::errors::{NoteError, NoteErrorView};
use crate::models::CreateNote;
use crate::text::{
    decimal_text, is_blank, lemma_trimmed_bounds, list_items, parse_usize, parsed_usize,
    push_decimal, same_text, split_list, trim, trimmed,
};
use vstd::prelude::*;

verus! {

/// The year of a note whose form names none.
pub const DEFAULT_YEAR: usize = 2025;

/// The fields of an upload request, as far as they have been read.
#[derive(Clone, Debug, PartialEq, Eq)]
pub struct UploadForm {
    pub course_name: String,
    pub course_code: String,
    pub description: Option<String>,
    pub professor_names: Option<Vec<String>>,
    pub tags: Vec<String>,
    pub file_data: Option<Vec<u8>>,
    pub year: usize,
    pub semester: String,
}

/// An `UploadForm` with its texts as sequences of characters.
pub struct UploadFormView {
    pub course_name: Seq<char>,
    pub course_code: Seq<char>,
    pub description: Option<Seq<char>>,
    pub professor_names: Option<Seq<Seq<char>>>,
    pub tags: Seq<Seq<char>>,
    pub file_data: Option<Seq<u8>>,
    pub year: usize,
    pub semester: Seq<char>,
}

/// A `CreateNote` with its texts as sequences of characters.
pub struct CreateNoteView {
    pub course_name: Seq<char>,
    pub course_code: Seq<char>,
    pub description: Option<Seq<char>>,
    pub professor_names: Option<Seq<Seq<char>>>,
    pub tags: Seq<Seq<char>>,
    pub has_preview_image: bool,
    pub uploader_user_id: u128,
    pub timestamp: i64,
    pub note_year: usize,
    pub note_semester: Seq<char>,
}

/// The text of an optional text.
pub open spec fn optional_text(t: Option<String>) -> Option<Seq<char>> {
    match t {
        Some(s) => Some(s@),
        None => None,
    }
}

/// The texts of an optional list of texts.
pub open spec fn optional_texts(t: Option<Vec<String>>) -> Option<Seq<Seq<char>>> {
    match t {
        Some(v) => Some(v.deep_view()),
        None => None,
    }
}

/// The bytes of an optional buffer.
pub open spec fn optional_bytes(t: Option<Vec<u8>>) -> Option<Seq<u8>> {
    match t {
        Some(v) => Some(v@),
        None => None,
    }
}

/// The text of an optional borrowed text.
pub open spec fn optional_str(t: Option<&str>) -> Option<Seq<char>> {
    match t {
        Some(s) => Some(s@),
        None => None,
    }
}

impl View for UploadForm {
    type V = UploadFormView;

    open spec fn view(&self) -> UploadFormView {
        UploadFormView {
            course_name: self.course_name@,
            course_code: self.course_code@,
            description: optional_text(self.description),
            professor_names: optional_texts(self.professor_names),
            tags: self.tags.deep_view(),
            file_data: optional_bytes(self.file_data),
            year: self.year,
            semester: self.semester@,
        }
    }
}

impl View for CreateNote {
    type V = CreateNoteView;

    open spec fn view(&self) -> CreateNoteView {
        CreateNoteView {
            course_name: self.course_name@,
            course_code: self.course_code@,
            description: optional_text(self.description),
            professor_names: optional_texts(self.professor_names),
            tags: self.tags.deep_view(),
            has_preview_image: self.has_preview_image,
            uploader_user_id: self.uploader_user_id,
            timestamp: self.timestamp,
            note_year: self.note_year,
            note_semester: self.note_semester@,
        }
    }
}

/// The size in bytes above which a file is refused, for a limit in MiB.
pub open spec fn size_limit_bytes(file_size_limit: usize) -> usize {
    file_size_limit << 20
}

/// The message for a file above the limit. It names the limit in whole MiB.
pub open spec fn too_big_text(file_size_limit: usize) -> Seq<char> {
    "File size too big. Only files up to "@ + decimal_text(
        (size_limit_bytes(file_size_limit) >> 20) as nat,
    ) + " MiB are allowed."@
}

/// The message for a text field that could not be read.
pub open spec fn unreadable_field_text(name: Seq<char>) -> Seq<char> {
    "Invalid format for field: "@ + name
}

/// What the declared type of the file part is refused for, if it is.
pub open spec fn file_type_rejection(content_type: Option<Seq<char>>) -> Option<NoteErrorView> {
    match content_type {
        Some(t) => if t == "application/pdf"@ {
            None
        } else {
            Some(NoteErrorView::InvalidData("Only PDF files are supported"@))
        },
        None => Some(
            NoteErrorView::InvalidData(
                "Content-type header not found. File type could not be determined"@,
            ),
        ),
    }
}

/// Checks the declared type of the file part, before its bytes are read:
/// it must be there and be exactly `application/pdf`.
pub fn check_file_type(content_type: Option<&str>) -> (r: Result<(), NoteError>)
    ensures
        match r {
            Ok(_) => file_type_rejection(optional_str(content_type)) is None,
            Err(e) => file_type_rejection(optional_str(content_type)) == Some(e@),
        },
{
    match content_type {
        Some(t) => {
            if same_text(t, "application/pdf") {
                Ok(())
            } else {
                Err(NoteError::InvalidData(String::from_str("Only PDF files are supported")))
            }
        },
        None => Err(
            NoteError::InvalidData(
                String::from_str(
                    "Content-type header not found. File type could not be determined",
                ),
            ),
        ),
    }
}

/// The failure for a file part whose bytes could not be read.
pub fn unreadable_file() -> (e: NoteError)
    ensures
        e@ == NoteErrorView::UploadFailed("Failed to read file bytes"@),
{
    NoteError::UploadFailed(String::from_str("Failed to read file bytes"))
}

/// The failure for a text field whose content could not be read.
pub fn unreadable_field(name: &str) -> (e: NoteError)
    ensures
        e@ == NoteErrorView::UploadFailed(unreadable_field_text(name@)),
{
    let mut message = String::from_str("Invalid format for field: ");
    message.append(name);
    NoteError::UploadFailed(message)
}

impl UploadFormView {
    /// The form before any field is read.
    pub open spec fn empty() -> UploadFormView {
        UploadFormView {
            course_name: Seq::empty(),
            course_code: Seq::empty(),
            description: None,
            professor_names: None,
            tags: Seq::empty(),
            file_data: None,
            year: DEFAULT_YEAR,
            semester: "Autumn"@,
        }
    }

    /// The form after a file of `data` arrived under a limit given in MiB,
    /// or the refusal of a file above the limit.
    pub open spec fn with_file(self, data: Seq<u8>, file_size_limit: usize) -> Result<
        UploadFormView,
        NoteErrorView,
    > {
        if data.len() > size_limit_bytes(file_size_limit) {
            Err(NoteErrorView::InvalidData(too_big_text(file_size_limit)))
        } else {
            Ok(UploadFormView { file_data: Some(data), ..self })
        }
    }

    /// The form after the text field `name` arrived with `data`, or the
    /// refusal of a year that is no number. A blank description, an empty
    /// list of professors and a blank semester leave what was there; a field
    /// of another name is passed over.
    pub open spec fn with_text(self, name: Seq<char>, data: Seq<char>) -> Result<
        UploadFormView,
        NoteErrorView,
    > {
        if name == "course_name"@ {
            Ok(UploadFormView { course_name: data, ..self })
        } else if name == "course_code"@ {
            Ok(UploadFormView { course_code: data, ..self })
        } else if name == "description"@ {
            if is_blank(data) {
                Ok(self)
            } else {
                Ok(UploadFormView { description: Some(data), ..self })
            }
        } else if name == "professor_names"@ {
            if list_items(data).len() == 0 {
                Ok(self)
            } else {
                Ok(UploadFormView { professor_names: Some(list_items(data)), ..self })
            }
        } else if name == "tags"@ {
            Ok(UploadFormView { tags: list_items(data), ..self })
        } else if name == "year"@ {
            match parsed_usize(trimmed(data)) {
                Some(year) => Ok(UploadFormView { year, ..self }),
                None => Err(NoteErrorView::InvalidData("Invalid year"@)),
            }
        } else if name == "semester"@ {
            if trimmed(data).len() == 0 {
                Ok(self)
            } else {
                Ok(UploadFormView { semester: trimmed(data), ..self })
            }
        } else {
            Ok(self)
        }
    }

    /// Why the form cannot become a note, if it cannot. The checks are made
    /// in this order: course name, course code, semester, file. A file
    /// without bytes counts as no file.
    pub open spec fn rejection(self) -> Option<NoteErrorView> {
        if is_blank(self.course_name) {
            Some(NoteErrorView::InvalidData("Course name is required"@))
        } else if is_blank(self.course_code) {
            Some(NoteErrorView::InvalidData("Course code is required"@))
        } else if trimmed(self.semester) != "Autumn"@ && trimmed(self.semester) != "Spring"@ {
            Some(
                NoteErrorView::InvalidData(
                    "Semester is required and must be one of: Autumn, Spring"@,
                ),
            )
        } else if self.file_data is None || self.file_data->0.len() == 0 {
            Some(NoteErrorView::InvalidData("File not provided"@))
        } else {
            None
        }
    }

    /// The note that the form asks to store.
    pub open spec fn note(self, uploader_user_id: u128, timestamp: i64) -> CreateNoteView {
        CreateNoteView {
            course_name: self.course_name,
            course_code: self.course_code,
            description: self.description,
            professor_names: self.professor_names,
            tags: self.tags,
            has_preview_image: false,
            uploader_user_id,
            timestamp,
            note_year: self.year,
            note_semester: self.semester,
        }
    }
}

impl UploadForm {
    /// The form before any field is read: no texts, no file, the default
    /// year and the semester `Autumn`.
    pub fn new() -> (form: UploadForm)
        ensures
            form@ == UploadFormView::empty(),
    {
        let form = UploadForm {
            course_name: String::new(),
            course_code: String::new(),
            description: None,
            professor_names: None,
            tags: Vec::new(),
            file_data: None,
            year: DEFAULT_YEAR,
            semester: String::from_str("Autumn"),
        };
        assert(form.tags.deep_view() =~= Seq::<Seq<char>>::empty());
        form
    }

    /// Takes the bytes of the file part. A file above `file_size_limit` MiB
    /// is refused and the form stays as it was.
    pub fn accept_file(&mut self, data: Vec<u8>, file_size_limit: usize) -> (r: Result<
        (),
        NoteError,
    >)
        ensures
            match r {
                Ok(_) => old(self)@.with_file(data@, file_size_limit) == Ok::<
                    UploadFormView,
                    NoteErrorView,
                >(final(self)@),
                Err(e) => old(self)@.with_file(data@, file_size_limit) == Err::<
                    UploadFormView,
                    NoteErrorView,
                >(e@) && final(self)@ == old(self)@,
            },
    {
        let limit: usize = file_size_limit << 20;
        if data.len() > limit {
            let mut message = String::from_str("File size too big. Only files up to ");
            push_decimal(&mut message, limit >> 20);
            message.append(" MiB are allowed.");
            return Err(NoteError::InvalidData(message));
        }
        self.file_data = Some(data);
        Ok(())
    }

    /// Takes the content of the text field `name`. The file part does not
    /// come this way.
    pub fn accept_text(&mut self, name: &str, data: String) -> (r: Result<(), NoteError>)
        ensures
            match r {
                Ok(_) => old(self)@.with_text(name@, data@) == Ok::<UploadFormView, NoteErrorView>(
                    final(self)@,
                ),
                Err(e) => old(self)@.with_text(name@, data@) == Err::<
                    UploadFormView,
                    NoteErrorView,
                >(e@) && final(self)@ == old(self)@,
            },
    {
        if same_text(name, "course_name") {
            self.course_name = data;
        } else if same_text(name, "course_code") {
            self.course_code = data;
        } else if same_text(name, "description") {
            proof {
                lemma_trimmed_bounds(data@);
            }
            if !trim(data.as_str()).is_empty() {
                self.description = Some(data);
            }
        } else if same_text(name, "professor_names") {
            let names = split_list(data.as_str());
            if names.len() > 0 {
                self.professor_names = Some(names);
            }
        } else if same_text(name, "tags") {
            self.tags = split_list(data.as_str());
        } else if same_text(name, "year") {
            match parse_usize(trim(data.as_str())) {
                Some(year) => {
                    self.year = year;
                },
                None => {
                    return Err(NoteError::InvalidData(String::from_str("Invalid year")));
                },
            }
        } else if same_text(name, "semester") {
            let s = trim(data.as_str());
            if !s.is_empty() {
                self.semester = String::from_str(s);
            }
        }
        Ok(())
    }

    /// Checks the form and turns it into the note to store and the bytes of
    /// its file. Course name and course code must not be blank, the semester
    /// must be `Autumn` or `Spring`, and a file with at least one byte must
    /// have arrived.
    pub fn into_note(self, uploader_user_id: u128, timestamp: i64) -> (r: Result<
        (CreateNote, Vec<u8>),
        NoteError,
    >)
        ensures
            match r {
                Ok((note, bytes)) => {
                    &&& self@.rejection() is None
                    &&& note@ == self@.note(uploader_user_id, timestamp)
                    &&& Some(bytes@) == self@.file_data
                },
                Err(e) => self@.rejection() == Some(e@),
            },
    {
        proof {
            lemma_trimmed_bounds(self.course_name@);
            lemma_trimmed_bounds(self.course_code@);
        }
        if trim(self.course_name.as_str()).is_empty() {
            return Err(NoteError::InvalidData(String::from_str("Course name is required")));
        }
        if trim(self.course_code.as_str()).is_empty() {
            return Err(NoteError::InvalidData(String::from_str("Course code is required")));
        }
        let semester = trim(self.semester.as_str());
        if !same_text(semester, "Autumn") && !same_text(semester, "Spring") {
            return Err(
                NoteError::InvalidData(
                    String::from_str("Semester is required and must be one of: Autumn, Spring"),
                ),
            );
        }
        let bytes = match self.file_data {
            Some(bytes) => bytes,
            None => {
                return Err(NoteError::InvalidData(String::from_str("File not provided")));
            },
        };
        if bytes.len() == 0 {
            return Err(NoteError::InvalidData(String::from_str("File not provided")));
        }
        Ok(
                (
                    CreateNote {
                        course_name: self.course_name,
                        course_code: self.course_code,
                        description: self.description,
                        professor_names: self.professor_names,
                        tags: self.tags,
                        has_preview_image: false,
                        uploader_user_id,
                        timestamp,
                        note_year: self.year,
                        note_semester: self.semester,
                    },
                    bytes,
                ),
            )
    }
}

} // verus!
