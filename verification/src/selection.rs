//! Which listed classes get wrappers, where their files are, and the text
//! that opens each output file.
use vstd::prelude::*;
use crate::xml::XmlElement;
use crate::classes::{class_entries, get_all_classes, pair_view};

verus! {

/// The classes that never get wrappers, one per line.
pub const CLASS_BLOCKLIST: &'static str = r"
wxThreadHelper
wxThread
wxTextOutputStream
wxSpinEvent
wxDropTarget
wxScopedPtr
wxChoice
wxComboBox
wxCursor
wxDataInputStream
wxEvent
wxListBox
wxProcess
wxRadioBox
wxDataOutputStream
wxInitializer
wxMenuBar
wxAccessible
wxAnimation
wxAnimationCtrl
wxArrayStringProperty
wxAuiManager
wxAuiManagerEvent
wxAuiMDIChildFrame
wxAuiMDIClientWindow
wxAuiMDIParentFrame
wxAuiNotebook
wxAuiNotebookEvent
wxAuiToolBar
wxAuiToolBarEvent
wxLogStream
wxLogStderr
wxMessageOutputStderr
wxBufferedInputStream
wxAutomationObject
wxBannerWindow
wxBitmapComboBox
wxBitmapToggleButton
wxBookCtrlBase
wxBookCtrlEvent
wxBoolProperty
wxBufferedDC
wxBusyInfo
wxCalculateLayoutEvent
wxCalendarCtrl
wxCalendarDateAttr
wxCollapsiblePane
wxColourDialog
wxColourPickerCtrl
wxColourProperty
wxComboCtrl
wxCommand
wxCommandLinkButton
wxCommandProcessor
wxConfigBase
wxContextHelp
wxContextHelpButton
wxConvAuto
wxCursorProperty
wxDatagramSocket
wxDataViewBitmapRenderer
wxDataViewChoiceByIndexRenderer
wxDataViewChoiceRenderer
wxDataViewColumn
wxDataViewCtrl
wxDataViewCustomRenderer
wxDataViewDateRenderer
wxDataViewEvent
wxDataViewIconTextRenderer
wxDataViewIndexListModel
wxDataViewListCtrl
wxDataViewProgressRenderer
wxDataViewRenderer
wxDataViewSpinRenderer
wxDataViewTextRenderer
wxDataViewToggleRenderer
wxDataViewTreeCtrl
wxDataViewVirtualListModel
wxDatePickerCtrl
wxDateProperty
wxDebugReportUpload
wxDirFilterListCtrl
wxDirPickerCtrl
wxDirProperty
wxDisplay
wxDocChildFrame
wxDocManager
wxDocMDIChildFrame
wxDocParentFrame
wxDocTemplate
wxDocument
wxDragImage
wxDropSource
wxDynamicLibrary
wxEditableListBox
wxEditEnumProperty
wxEnumProperty
wxEOL
wxExtHelpController
wxFFile
wxFFileInputStream
wxFFileOutputStream
wxFFileStream
wxFile
wxFileConfig
wxFileHistory
wxFileName
wxFilePickerCtrl
wxFileProperty
wxFileSystemWatcherEvent
wxFindDialogEvent
wxFindReplaceData
wxFindReplaceDialog
wxFlagsProperty
wxFloatProperty
wxFontPickerCtrl
wxFontProperty
wxGBSizerItem
wxGenericAboutDialog
wxGenericDirCtrl
wxGenericProgressDialog
wxGLCanvas
wxGLContext
wxGraphicsGradientStop
wxGraphicsGradientStops
wxGridBagSizer
wxGridCellAttr
wxGridCellChoiceEditor
wxGridCellDateTimeRenderer
wxGridCellEnumEditor
wxGridCellEnumRenderer
wxGridCellFloatEditor
wxGridCellFloatRenderer
wxGridCellNumberEditor
wxGridCellTextEditor
wxGridEvent
wxGridRangeSelectEvent
wxGridSizeEvent
wxGridTableMessage
wxGridUpdateLocker
wxHashMap
wxHashSet
wxHeaderCtrl
wxHeaderCtrlEvent
wxHeaderCtrlSimple
wxHelpController
wxHelpControllerBase
wxHelpControllerHelpProvider
wxHScrolledWindow
wxHtmlColourCell
wxHtmlEasyPrinting
wxHtmlHelpController
wxHtmlHelpDialog
wxHtmlHelpFrame
wxHtmlHelpWindow
wxHtmlLinkInfo
wxHtmlListBox
wxHtmlModalHelp
wxHtmlPrintout
wxHtmlWidgetCell
wxHtmlWindow
wxHtmlWinParser
wxHVScrolledWindow
wxHyperlinkCtrl
wxImageFileProperty
wxImageList
wxInfoBar
wxIntProperty
wxJoystick
wxListbook
wxListCtrl
wxListEvent
wxListView
wxLongStringProperty
wxMediaCtrl
wxMediaEvent
wxMemoryInputStream
wxMemoryOutputStream
wxMetafile
wxMetafileDC
wxMiniFrame
wxMultiChoiceProperty
wxNotebook
wxNotificationMessage
wxNumericPropertyValidator
wxOwnerDrawnComboBox
wxPageSetupDialog
wxPGArrayEditorDialog
wxPGCell
wxPGChoiceEntry
wxPGChoices
wxPopupTransientWindow
wxPopupWindow
wxPreferencesEditor
wxPreviewCanvas
wxPreviewControlBar
wxPreviewFrame
wxPrintAbortDialog
wxPrintDialog
wxPrinter
wxPrintout
wxPrintPreview
wxProcessEvent
wxProgressDialog
wxPropertyCategory
wxPropertyGrid
wxPropertyGridConstIterator
wxPropertyGridEvent
wxPropertyGridIterator
wxPropertyGridManager
wxPropertySheetDialog
wxQueryLayoutInfoEvent
wxRearrangeCtrl
wxRearrangeDialog
wxRearrangeList
wxRegConfig
wxRegEx
wxRegKey
wxRibbonBar
wxRibbonBarEvent
wxRibbonButtonBar
wxRibbonButtonBarEvent
wxRibbonControl
wxRibbonGallery
wxRibbonGalleryEvent
wxRibbonMSWArtProvider
wxRibbonPage
wxRibbonPanel
wxRibbonPanelEvent
wxRibbonToolBar
wxRibbonToolBarEvent
wxRichMessageDialog
wxRichTextAction
wxRichTextBox
wxRichTextBufferDataObject
wxRichTextCell
wxRichTextCharacterStyleDefinition
wxRichTextCommand
wxRichTextCompositeObject
wxRichTextCtrl
wxRichTextDrawingHandler
wxRichTextEvent
wxRichTextField
wxRichTextFieldType
wxRichTextFieldTypeStandard
wxRichTextFileHandler
wxRichTextFormattingDialog
wxRichTextHTMLHandler
wxRichTextImage
wxRichTextListStyleDefinition
wxRichTextObject
wxRichTextParagraph
wxRichTextParagraphLayoutBox
wxRichTextParagraphStyleDefinition
wxRichTextPlainText
wxRichTextPlainTextHandler
wxRichTextPrinting
wxRichTextPrintout
wxRichTextStyleComboCtrl
wxRichTextStyleDefinition
wxRichTextStyleListBox
wxRichTextStyleOrganiserDialog
wxRichTextTable
wxRichTextXMLHandler
wxSashEvent
wxSashLayoutWindow
wxSashWindow
wxSearchCtrl
wxSimplebook
wxSimpleHtmlListBox
wxSingleInstanceChecker
wxSocketClient
wxSocketEvent
wxSocketServer
wxSound
wxSpinButton
wxSpinCtrl
wxSpinCtrlDouble
wxSpinDoubleEvent
wxSplashScreen
wxSplitterEvent
wxSplitterWindow
wxStackWalker
wxStaticLine
wxStringOutputStream
wxStringProperty
wxStringTokenizer
wxStyledTextCtrl
wxStyledTextEvent
wxSVGFileDC
wxSymbolPickerDialog
wxSystemColourProperty
wxTarEntry
wxTaskBarIcon
wxTextAttrDimension
wxTextAttrDimensionConverter
wxTimePickerCtrl
wxTipWindow
wxToggleButton
wxTreebook
wxTreeCtrl
wxTreeEvent
wxTreeListCtrl
wxUIntProperty
wxURL
wxVariantDataErrorCode
wxVariantDataSafeArray
wxVListBox
wxVScrolledWindow
wxWebKitBeforeLoadEvent
wxWebKitCtrl
wxWebKitNewWindowEvent
wxWebKitStateChangedEvent
wxWizard
wxWizardEvent
wxWizardPage
wxWizardPageSimple
wxWrapSizer
wxXmlAttribute
wxXmlDocument
wxXmlNode
wxXmlResource
wxZipEntry";

/// `line` without one trailing carriage return.
pub open spec fn strip_cr(line: Seq<char>) -> Seq<char> {
    if line.len() > 0 && line.last() == '\r' {
        line.drop_last()
    } else {
        line
    }
}

/// The lines of `s` that a newline ends, and the text after the last newline.
pub open spec fn split_newlines(s: Seq<char>) -> (Seq<Seq<char>>, Seq<char>)
    decreases s.len(),
{
    if s.len() == 0 {
        (Seq::empty(), Seq::empty())
    } else {
        let (done, cur) = split_newlines(s.drop_last());
        if s.last() == '\n' {
            (done.push(strip_cr(cur)), Seq::empty())
        } else {
            (done, cur.push(s.last()))
        }
    }
}

/// The lines of `s`: split at each newline, a carriage return before the
/// newline removed, and no empty line after a final newline.
pub open spec fn text_lines(s: Seq<char>) -> Seq<Seq<char>> {
    let (done, cur) = split_newlines(s);
    if cur.len() == 0 {
        done
    } else {
        done.push(cur)
    }
}

/// The lines among `lines` that are not empty, in order.
pub open spec fn nonempty_lines(lines: Seq<Seq<char>>) -> Seq<Seq<char>>
    decreases lines.len(),
{
    if lines.len() == 0 {
        Seq::empty()
    } else {
        let prefix = nonempty_lines(lines.drop_last());
        if lines.last().len() > 0 {
            prefix.push(lines.last())
        } else {
            prefix
        }
    }
}

/// The blocked class names.
pub open spec fn blocklist_spec() -> Seq<Seq<char>> {
    nonempty_lines(text_lines(CLASS_BLOCKLIST@))
}

/// Strings as character sequences.
pub open spec fn string_views(v: Seq<String>) -> Seq<Seq<char>> {
    v.map_values(|s: String| s@)
}

/// Returns the lines of `text`, as `str::lines` splits them.
pub fn lines_of(text: &str) -> (r: Vec<String>)
    ensures
        string_views(r@) == text_lines(text@),
{
    let n = text.unicode_len();
    let mut out: Vec<String> = Vec::new();
    let mut start: usize = 0;
    let mut i: usize = 0;
    assert(text@.take(0) =~= Seq::<char>::empty());
    while i < n
        invariant
            n == text@.len(),
            start <= i <= n,
            split_newlines(text@.take(i as int)) == (string_views(out@), text@.subrange(
                start as int,
                i as int,
            )),
        decreases n - i,
    {
        assert(text@.take(i + 1).drop_last() == text@.take(i as int));
        assert(text@.take(i + 1).last() == text@[i as int]);
        let c = text.get_char(i);
        if c == '\n' {
            let end = if i > start && text.get_char(i - 1) == '\r' {
                i - 1
            } else {
                i
            };
            let line = text.substring_char(start, end).to_owned();
            assert(line@ =~= strip_cr(text@.subrange(start as int, i as int)));
            out.push(line);
            assert(string_views(out@) =~= string_views(out@.drop_last()).push(line@));
            start = i + 1;
            assert(text@.subrange(start as int, start as int) =~= Seq::<char>::empty());
        } else {
            assert(text@.subrange(start as int, i + 1) =~= text@.subrange(start as int, i as int).push(c));
        }
        i = i + 1;
    }
    assert(text@.take(n as int) == text@);
    if start < n {
        let line = text.substring_char(start, n).to_owned();
        out.push(line);
        assert(string_views(out@) =~= string_views(out@.drop_last()).push(line@));
    }
    out
}

/// Returns the blocked class names: the non-empty lines of the blocklist.
pub fn class_blocklist() -> (r: Vec<String>)
    ensures
        string_views(r@) == blocklist_spec(),
{
    let lines = lines_of(CLASS_BLOCKLIST);
    let ghost ls = string_views(lines@);
    let n = lines.len();
    let mut out: Vec<String> = Vec::new();
    let mut i: usize = 0;
    while i < n
        invariant
            n == lines@.len(),
            ls == string_views(lines@),
            ls == text_lines(CLASS_BLOCKLIST@),
            i <= n,
            string_views(out@) == nonempty_lines(ls.take(i as int)),
        decreases n - i,
    {
        assert(ls.take(i + 1).drop_last() == ls.take(i as int));
        assert(ls.take(i + 1).last() == lines@[i as int]@);
        let line = lines[i].clone();
        if line.as_str().unicode_len() > 0 {
            out.push(line);
            assert(string_views(out@) =~= string_views(out@.drop_last()).push(line@));
        }
        i = i + 1;
    }
    assert(ls.take(n as int) == ls);
    out
}

/// Whether `c` occurs in `s`.
pub fn contains_char(s: &str, c: char) -> (r: bool)
    ensures
        r == s@.contains(c),
{
    let n = s.unicode_len();
    let mut i: usize = 0;
    while i < n
        invariant
            n == s@.len(),
            i <= n,
            forall|j: int| 0 <= j < i ==> s@[j] != c,
        decreases n - i,
    {
        if s.get_char(i) == c {
            return true;
        }
        i = i + 1;
    }
    false
}

/// Whether a class named `name` gets wrappers: it is not blocked and its name
/// has no `:`, `<` or space.
pub open spec fn is_wrapped_spec(name: Seq<char>, blocklist: Seq<Seq<char>>) -> bool {
    &&& !blocklist.contains(name)
    &&& !name.contains(':')
    &&& !name.contains('<')
    &&& !name.contains(' ')
}

/// Whether the class named `name` gets wrappers, given the blocked names.
pub fn is_wrapped_class(name: &str, blocklist: &Vec<String>) -> (r: bool)
    ensures
        r == is_wrapped_spec(name@, string_views(blocklist@)),
{
    let wanted = name.to_owned();
    let n = blocklist.len();
    let mut i: usize = 0;
    while i < n
        invariant
            n == blocklist@.len(),
            i <= n,
            wanted@ == name@,
            forall|j: int| 0 <= j < i ==> blocklist@[j]@ != name@,
        decreases n - i,
    {
        if blocklist[i] == wanted {
            assert(string_views(blocklist@)[i as int] == name@);
            return false;
        }
        i = i + 1;
    }
    assert(!string_views(blocklist@).contains(name@));
    !contains_char(name, ':') && !contains_char(name, '<') && !contains_char(name, ' ')
}

/// The path of the description of the class with reference id `refid`.
pub open spec fn class_file_path_spec(xml_path: Seq<char>, refid: Seq<char>) -> Seq<char> {
    xml_path + "/"@ + refid + ".xml"@
}

/// Returns the path of the description of the class with reference id `refid`.
pub fn class_file_path(xml_path: &str, refid: &str) -> (r: String)
    ensures
        r@ == class_file_path_spec(xml_path@, refid@),
{
    let mut path = xml_path.to_owned();
    path.append("/");
    path.append(refid);
    path.append(".xml");
    path
}

/// Returns the path of the index of the documentation in `xml_path`.
pub fn index_file_path(xml_path: &str) -> (r: String)
    ensures
        r@ == xml_path@ + "/index.xml"@,
{
    let mut path = xml_path.to_owned();
    path.append("/index.xml");
    path
}

/// Returns the line that opens the generated header.
pub fn header_prologue() -> (r: String)
    ensures
        r@ == "#include \"wx/wx.h\"\n"@,
{
    "#include \"wx/wx.h\"\n".to_owned()
}

/// Returns the line that opens the generated source: it includes the header.
pub fn source_prologue(output_header: &str) -> (r: String)
    ensures
        r@ == "#include \""@ + output_header@ + "\"\n"@,
{
    let mut line = "#include \"".to_owned();
    line.append(output_header);
    line.append("\"\n");
    line
}

/// The classes among `entries` that get wrappers, each with the path of its description.
pub open spec fn wrapped_classes(
    entries: Seq<(Seq<char>, Seq<char>)>,
    blocklist: Seq<Seq<char>>,
    xml_path: Seq<char>,
) -> Seq<(Seq<char>, Seq<char>)>
    decreases entries.len(),
{
    if entries.len() == 0 {
        Seq::empty()
    } else {
        let prefix = wrapped_classes(entries.drop_last(), blocklist, xml_path);
        let (name, refid) = entries.last();
        if is_wrapped_spec(name, blocklist) {
            prefix.push((name, class_file_path_spec(xml_path, refid)))
        } else {
            prefix
        }
    }
}

/// Returns, for each class that `index_root` lists and that gets wrappers, its
/// name and the path of its description under `xml_path`, in order.
pub fn classes_to_wrap(index_root: &XmlElement, xml_path: &str) -> (r: Vec<(String, String)>)
    ensures
        r@.map_values(|p: (String, String)| pair_view(p)) == wrapped_classes(
            class_entries(index_root.children_spec()),
            blocklist_spec(),
            xml_path@,
        ),
{
    let blocklist = class_blocklist();
    let classes = get_all_classes(index_root);
    let ghost es = classes@.map_values(|p: (String, String)| pair_view(p));
    let n = classes.len();
    let mut out: Vec<(String, String)> = Vec::new();
    let mut i: usize = 0;
    while i < n
        invariant
            n == classes@.len(),
            es == classes@.map_values(|p: (String, String)| pair_view(p)),
            string_views(blocklist@) == blocklist_spec(),
            i <= n,
            out@.map_values(|p: (String, String)| pair_view(p)) == wrapped_classes(
                es.take(i as int),
                blocklist_spec(),
                xml_path@,
            ),
        decreases n - i,
    {
        assert(es.take(i + 1).drop_last() == es.take(i as int));
        assert(es.take(i + 1).last() == pair_view(classes@[i as int]));
        let name = &classes[i].0;
        let refid = &classes[i].1;
        if is_wrapped_class(name.as_str(), &blocklist) {
            let entry = (name.clone(), class_file_path(xml_path, refid.as_str()));
            let ghost before = out@;
            out.push(entry);
            assert(out@.map_values(|p: (String, String)| pair_view(p)) == before.map_values(
                |p: (String, String)| pair_view(p),
            ).push(pair_view(entry)));
        }
        i = i + 1;
    }
    assert(es.take(n as int) == es);
    out
}

} // verus!
