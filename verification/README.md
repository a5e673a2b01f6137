# wx_widgets_bindgen_helpers

Generates C++ constructor wrappers for wxWidgets classes from Doxygen XML, with
the logic verified by Verus.

- `src/xml.rs`: the document tree, its spec functions, and parsing of bytes
  through `minidom` and `quick-xml`.
- `src/lookup.rs`: the one child that meets a condition (through `single`),
  required attributes, and the lookup errors.
- `src/classes.rs`: the classes that a Doxygen index lists.
- `src/selection.rs`: the blocklist, which classes get wrappers, file paths and
  the opening lines of the generated files.
- `src/constructors.rs`: the wrapper text for one class.
- `src/laws.rs`: properties of the library as a whole.
- `app/lib.rs`: `generate_wrapper`, which reads and writes the files.
