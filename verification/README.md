# keep2turtl

Converts a Google Keep export (Google Takeout, as a zip file or an unzipped
directory of `.json` notes) into a Turtl backup file that Turtl can import.

    keep2turtl <zip file or unzipped directory> <numeric user ID> [output file, default import.json]

The numeric user ID appears as `"user_id":` in a backup made by Turtl itself.

## Layout

- `src/`: the library, verified with Verus: the JSON model and its laws
  (`json`), parsing and printing through the json crate (`json_text`), the
  conversion of a Keep note (`note`), reading attachments as a step function
  between file operations (`attachment`), the backup object (`backup`),
  identifiers (`ids`), base64 (`encoding`), string operations (`text`) and the
  selection of note files in an export (`takeout`).
- `app/main.rs`: the program: arguments, zip and directory reading, the file
  operations for attachments, and writing the backup.
- `tests/`: tests of the library.
