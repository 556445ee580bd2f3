//! The names of the members, told apart.
use vstd::prelude::*;

verus! {

/// A number that tells the names of the members apart: their length and some of their
/// characters.
pub closed spec fn fingerprint(name: Seq<char>) -> int {
    let n = name.len() as int;
    ((((n * 128 + name[0] as int) * 128 + name[n - 1] as int) * 128 + name[n / 2] as int) * 128
        + name[n / 3] as int) * 128 + name[n / 4] as int
}

proof fn lemma_names_from_any()
    ensures
        fingerprint("Any"@) == 120783091521,
        fingerprint("Appendable"@) == 361259152112,
        fingerprint("Array"@) == 189502634354,
        fingerprint("Boolean"@) == 258467379183,
        fingerprint("BooleanArray"@) == 430289171180,
        fingerprint("Byte"@) == 155369422073,
        fingerprint("Char"@) == 155664807016,
        fingerprint("CharArray"@) == 327477655905,
        fingerprint("CharSequence"@) == 430515710450,
        fingerprint("Collection"@) == 361814881900,
        fingerprint("Comparable"@) == 361796253805,
        fingerprint("Double"@) == 224625474287,
        fingerprint("DoubleArray"@) == 396466155893,
        fingerprint("Float"@) == 190834275948,
        fingerprint("Grouping.eachCount"@) == 637779146608,
        fingerprint("Int"@) == 122920089417,
        fingerprint("IntArray"@) == 294729333364,
        fingerprint("Iterable"@) == 294687109861,
        fingerprint("List"@) == 158085215465,
        fingerprint("Long"@) == 158057871343,
        fingerprint("Map"@) == 123985227981,
        fingerprint("MutableList"@) == 398871703796,
        fingerprint("MutableMap"@) == 364503576820,
        fingerprint("MutableSet"@) == 364511965428,
{
    reveal_strlit("Any");
    reveal_strlit("Appendable");
    reveal_strlit("Array");
    reveal_strlit("Boolean");
    reveal_strlit("BooleanArray");
    reveal_strlit("Byte");
    reveal_strlit("Char");
    reveal_strlit("CharArray");
    reveal_strlit("CharSequence");
    reveal_strlit("Collection");
    reveal_strlit("Comparable");
    reveal_strlit("Double");
    reveal_strlit("DoubleArray");
    reveal_strlit("Float");
    reveal_strlit("Grouping.eachCount");
    reveal_strlit("Int");
    reveal_strlit("IntArray");
    reveal_strlit("Iterable");
    reveal_strlit("List");
    reveal_strlit("Long");
    reveal_strlit("Map");
    reveal_strlit("MutableList");
    reveal_strlit("MutableMap");
    reveal_strlit("MutableSet");
}

proof fn lemma_names_from_nothing()
    ensures
        fingerprint("Nothing"@) == 261673859695,
        fingerprint("Number"@) == 227337090805,
        fingerprint("Pair"@) == 159154598113,
        fingerprint("Set"@) == 125604295379,
        fingerprint("Short"@) == 194323936360,
        fingerprint("String"@) == 228656314740,
        fingerprint("StringBuffer"@) == 434837174121,
        fingerprint("StringBuilder"@) == 469196912489,
        fingerprint("TODO"@) == 160154331087,
        fingerprint("Throwable"@) == 331999999986,
        fingerprint("Triple"@) == 228920669426,
        fingerprint("Unit"@) == 160500971374,
        fingerprint("abs"@) == 129360245089,
        fingerprint("absoluteValue"@) == 472928564847,
        fingerprint("add"@) == 129328820833,
        fingerprint("addAll"@) == 232424239716,
        fingerprint("all"@) == 129345730145,
        fingerprint("also"@) == 163711874668,
        fingerprint("and"@) == 129328985953,
        fingerprint("any"@) == 129373026145,
        fingerprint("append"@) == 232408053872,
        fingerprint("appendLine"@) == 369849086704,
        fingerprint("appendRange"@) == 404208825072,
        fingerprint("apply"@) == 198092535920,
{
    reveal_strlit("Nothing");
    reveal_strlit("Number");
    reveal_strlit("Pair");
    reveal_strlit("Set");
    reveal_strlit("Short");
    reveal_strlit("String");
    reveal_strlit("StringBuffer");
    reveal_strlit("StringBuilder");
    reveal_strlit("TODO");
    reveal_strlit("Throwable");
    reveal_strlit("Triple");
    reveal_strlit("Unit");
    reveal_strlit("abs");
    reveal_strlit("absoluteValue");
    reveal_strlit("add");
    reveal_strlit("addAll");
    reveal_strlit("all");
    reveal_strlit("also");
    reveal_strlit("and");
    reveal_strlit("any");
    reveal_strlit("append");
    reveal_strlit("appendLine");
    reveal_strlit("appendRange");
    reveal_strlit("apply");
}

proof fn lemma_names_from_asiterable()
    ensures
        fingerprint("asIterable"@) == 369849317961,
        fingerprint("asList"@) == 232441669235,
        fingerprint("asSequence"@) == 369849365203,
        fingerprint("associate"@) == 335489333235,
        fingerprint("associateBy"@) == 404250851315,
        fingerprint("associateWith"@) == 472934543855,
        fingerprint("average"@) == 266770100982,
        fingerprint("capacity"@) == 301708408944,
        fingerprint("ceil"@) == 164242289381,
        fingerprint("check"@) == 198599865448,
        fingerprint("checkNotNull"@) == 439120295395,
        fingerprint("chunked"@) == 267304811240,
        fingerprint("clear"@) == 198614546028,
        fingerprint("code"@) == 164227528687,
        fingerprint("coerceAtLeast"@) == 473496056306,
        fingerprint("coerceAtMost"@) == 439136317938,
        fingerprint("coerceIn"@) == 301685338853,
        fingerprint("compareTo"@) == 336047143021,
        fingerprint("contains"@) == 301695793006,
        fingerprint("containsAll"@) == 404760459886,
        fingerprint("containsKey"@) == 404787722862,
        fingerprint("count"@) == 198619002863,
        fingerprint("delete"@) == 233215456869,
        fingerprint("deleteAt"@) == 301966636652,
{
    reveal_strlit("asIterable");
    reveal_strlit("asList");
    reveal_strlit("asSequence");
    reveal_strlit("associate");
    reveal_strlit("associateBy");
    reveal_strlit("associateWith");
    reveal_strlit("average");
    reveal_strlit("capacity");
    reveal_strlit("ceil");
    reveal_strlit("check");
    reveal_strlit("checkNotNull");
    reveal_strlit("chunked");
    reveal_strlit("clear");
    reveal_strlit("code");
    reveal_strlit("coerceAtLeast");
    reveal_strlit("coerceAtMost");
    reveal_strlit("coerceIn");
    reveal_strlit("compareTo");
    reveal_strlit("contains");
    reveal_strlit("containsAll");
    reveal_strlit("containsKey");
    reveal_strlit("count");
    reveal_strlit("delete");
    reveal_strlit("deleteAt");
}

proof fn lemma_names_from_deletecharat()
    ensures
        fingerprint("deleteCharAt"@) == 439404788325,
        fingerprint("deleteRange"@) == 405014147820,
        fingerprint("digitToInt"@) == 370685588711,
        fingerprint("distinct"@) == 301966457331,
        fingerprint("distinctBy"@) == 370696501875,
        fingerprint("div"@) == 130171958500,
        fingerprint("drop"@) == 164519213426,
        fingerprint("dropLast"@) == 301965981679,
        fingerprint("dropWhile"@) == 336294443119,
        fingerprint("eachCount"@) == 336594007139,
        fingerprint("eachCountTo"@) == 405303719011,
        fingerprint("elementAt"@) == 336594564837,
        fingerprint("elementAtOrNull"@) == 542735628141,
        fingerprint("endsWith"@) == 302209430116,
        fingerprint("ensureCapacity"@) == 508403677557,
        fingerprint("entries"@) == 267873204846,
        fingerprint("equals"@) == 233513188081,
        fingerprint("error"@) == 199151630706,
        fingerprint("exceptionOrNull"@) == 542736382565,
        fingerprint("filter"@) == 233779836521,
        fingerprint("filterIndexed"@) == 474267939572,
        fingerprint("filterKeys"@) == 371220855404,
        fingerprint("filterNot"@) == 336863001196,
        fingerprint("filterNotNull"@) == 474284798708,
{
    reveal_strlit("deleteCharAt");
    reveal_strlit("deleteRange");
    reveal_strlit("digitToInt");
    reveal_strlit("distinct");
    reveal_strlit("distinctBy");
    reveal_strlit("div");
    reveal_strlit("drop");
    reveal_strlit("dropLast");
    reveal_strlit("dropWhile");
    reveal_strlit("eachCount");
    reveal_strlit("eachCountTo");
    reveal_strlit("elementAt");
    reveal_strlit("elementAtOrNull");
    reveal_strlit("endsWith");
    reveal_strlit("ensureCapacity");
    reveal_strlit("entries");
    reveal_strlit("equals");
    reveal_strlit("error");
    reveal_strlit("exceptionOrNull");
    reveal_strlit("filter");
    reveal_strlit("filterIndexed");
    reveal_strlit("filterKeys");
    reveal_strlit("filterNot");
    reveal_strlit("filterNotNull");
}

proof fn lemma_names_from_filtervalues()
    ensures
        fingerprint("filterValues"@) == 439939871476,
        fingerprint("find"@) == 165030900969,
        fingerprint("findLast"@) == 302502852462,
        fingerprint("first"@) == 199424259305,
        fingerprint("firstOrNull"@) == 405565340146,
        fingerprint("flatMap"@) == 268135379180,
        fingerprint("flatMapIndexed"@) == 508627674868,
        fingerprint("flatten"@) == 268131184876,
        fingerprint("floor"@) == 199420016236,
        fingerprint("floorDiv"@) == 302507669487,
        fingerprint("floorMod"@) == 302469920751,
        fingerprint("fold"@) == 165030868975,
        fingerprint("foldRight"@) == 336862687852,
        fingerprint("forEach"@) == 268117834095,
        fingerprint("forEachIndexed"@) == 508627677381,
        fingerprint("format"@) == 233783916911,
        fingerprint("get"@) == 130973004519,
        fingerprint("getOrElse"@) == 337100187636,
        fingerprint("getOrNull"@) == 337114867700,
        fingerprint("groupBy"@) == 268422707186,
        fingerprint("groupingBy"@) == 371501726447,
        fingerprint("hashCode"@) == 303008119283,
        fingerprint("indexOf"@) == 268919468654,
        fingerprint("indexOfFirst"@) == 440747539557,
{
    reveal_strlit("filterValues");
    reveal_strlit("find");
    reveal_strlit("findLast");
    reveal_strlit("first");
    reveal_strlit("firstOrNull");
    reveal_strlit("flatMap");
    reveal_strlit("flatMapIndexed");
    reveal_strlit("flatten");
    reveal_strlit("floor");
    reveal_strlit("floorDiv");
    reveal_strlit("floorMod");
    reveal_strlit("fold");
    reveal_strlit("foldRight");
    reveal_strlit("forEach");
    reveal_strlit("forEachIndexed");
    reveal_strlit("format");
    reveal_strlit("get");
    reveal_strlit("getOrElse");
    reveal_strlit("getOrNull");
    reveal_strlit("groupBy");
    reveal_strlit("groupingBy");
    reveal_strlit("hashCode");
    reveal_strlit("indexOf");
    reveal_strlit("indexOfFirst");
}

proof fn lemma_names_from_indexoflast()
    ensures
        fingerprint("indexOfLast"@) == 406387421924,
        fingerprint("insert"@) == 234589092334,
        fingerprint("insertRange"@) == 406356570867,
        fingerprint("intersect"@) == 337668518644,
        fingerprint("inv"@) == 131514218345,
        fingerprint("isBlank"@) == 268930064755,
        fingerprint("isDigit"@) == 268948890227,
        fingerprint("isEmpty"@) == 268959441651,
        fingerprint("isFailure"@) == 337636913350,
        fingerprint("isLetter"@) == 303304615500,
        fingerprint("isLetterOrDigit"@) == 543826950757,
        fingerprint("isLowerCase"@) == 406356326348,
        fingerprint("isNotBlank"@) == 372008597454,
        fingerprint("isNotEmpty"@) == 372038006734,
        fingerprint("isSuccess"@) == 337666177747,
        fingerprint("isUpperCase"@) == 406356326485,
        fingerprint("isWhitespace"@) == 440716063976,
        fingerprint("joinToString"@) == 440988396142,
        fingerprint("jround"@) == 234824234994,
        fingerprint("key"@) == 132057232107,
        fingerprint("keys"@) == 166404715237,
        fingerprint("last"@) == 166675149025,
        fingerprint("lastIndexOf"@) == 407163878003,
        fingerprint("lastOrNull"@) == 372816788083,
{
    reveal_strlit("indexOfLast");
    reveal_strlit("insert");
    reveal_strlit("insertRange");
    reveal_strlit("intersect");
    reveal_strlit("inv");
    reveal_strlit("isBlank");
    reveal_strlit("isDigit");
    reveal_strlit("isEmpty");
    reveal_strlit("isFailure");
    reveal_strlit("isLetter");
    reveal_strlit("isLetterOrDigit");
    reveal_strlit("isLowerCase");
    reveal_strlit("isNotBlank");
    reveal_strlit("isNotEmpty");
    reveal_strlit("isSuccess");
    reveal_strlit("isUpperCase");
    reveal_strlit("isWhitespace");
    reveal_strlit("joinToString");
    reveal_strlit("jround");
    reveal_strlit("key");
    reveal_strlit("keys");
    reveal_strlit("last");
    reveal_strlit("lastIndexOf");
    reveal_strlit("lastOrNull");
}

proof fn lemma_names_from_length()
    ensures
        fingerprint("length"@) == 235369264997,
        fingerprint("let"@) == 132315181804,
        fingerprint("lines"@) == 201032709353,
        fingerprint("lowercase"@) == 338442367735,
        fingerprint("lowercaseChar"@) == 475908307301,
        fingerprint("map"@) == 132575162605,
        fingerprint("mapIndexed"@) == 373068211440,
        fingerprint("mapKeys"@) == 270020048993,
        fingerprint("mapNotNull"@) == 373085251440,
        fingerprint("mapValues"@) == 338739882864,
        fingerprint("max"@) == 132591939821,
        fingerprint("maxBy"@) == 201313890529,
        fingerprint("maxByOrNull"@) == 407444382072,
        fingerprint("maxOf"@) == 201274044641,
        fingerprint("maxOfOrNull"@) == 407444383736,
        fingerprint("maxOrNull"@) == 338725480440,
        fingerprint("message"@) == 269991344613,
        fingerprint("min"@) == 132571100397,
        fingerprint("minBy"@) == 201313727721,
        fingerprint("minByOrNull"@) == 407444382062,
        fingerprint("minOf"@) == 201273881833,
        fingerprint("minOfOrNull"@) == 407444383726,
        fingerprint("minOrNull"@) == 338725480430,
        fingerprint("minus"@) == 201301144809,
{
    reveal_strlit("length");
    reveal_strlit("let");
    reveal_strlit("lines");
    reveal_strlit("lowercase");
    reveal_strlit("lowercaseChar");
    reveal_strlit("map");
    reveal_strlit("mapIndexed");
    reveal_strlit("mapKeys");
    reveal_strlit("mapNotNull");
    reveal_strlit("mapValues");
    reveal_strlit("max");
    reveal_strlit("maxBy");
    reveal_strlit("maxByOrNull");
    reveal_strlit("maxOf");
    reveal_strlit("maxOfOrNull");
    reveal_strlit("maxOrNull");
    reveal_strlit("message");
    reveal_strlit("min");
    reveal_strlit("minBy");
    reveal_strlit("minByOrNull");
    reveal_strlit("minOf");
    reveal_strlit("minOfOrNull");
    reveal_strlit("minOrNull");
    reveal_strlit("minus");
}

proof fn lemma_names_from_minusassign()
    ensures
        fingerprint("minusAssign"@) == 407448353518,
        fingerprint("minusElement"@) == 441821379061,
        fingerprint("mod"@) == 132550227949,
        fingerprint("none"@) == 167180482543,
        fingerprint("onEach"@) == 236174467822,
        fingerprint("onFailure"@) == 339247526086,
        fingerprint("onSuccess"@) == 339276790483,
        fingerprint("or"@) == 98756769775,
        fingerprint("padEnd"@) == 236434059873,
        fingerprint("padStart"@) == 305187861092,
        fingerprint("partition"@) == 339534838386,
        fingerprint("plus"@) == 167746827884,
        fingerprint("plusAssign"@) == 373894740469,
        fingerprint("plusElement"@) == 408266947061,
        fingerprint("pow"@) == 133395380208,
        fingerprint("put"@) == 133389187824,
        fingerprint("reduce"@) == 236973814373,
        fingerprint("reduceRight"@) == 408803703524,
        fingerprint("rem"@) == 133911114482,
        fingerprint("remove"@) == 236973717221,
        fingerprint("removeAll"@) == 340067727341,
        fingerprint("removeAt"@) == 305724765933,
        fingerprint("removePrefix"@) == 443171486575,
        fingerprint("removeSuffix"@) == 443171535727,
{
    reveal_strlit("minusAssign");
    reveal_strlit("minusElement");
    reveal_strlit("mod");
    reveal_strlit("none");
    reveal_strlit("onEach");
    reveal_strlit("onFailure");
    reveal_strlit("onSuccess");
    reveal_strlit("or");
    reveal_strlit("padEnd");
    reveal_strlit("padStart");
    reveal_strlit("partition");
    reveal_strlit("plus");
    reveal_strlit("plusAssign");
    reveal_strlit("plusElement");
    reveal_strlit("pow");
    reveal_strlit("put");
    reveal_strlit("reduce");
    reveal_strlit("reduceRight");
    reveal_strlit("rem");
    reveal_strlit("remove");
    reveal_strlit("removeAll");
    reveal_strlit("removeAt");
    reveal_strlit("removePrefix");
    reveal_strlit("removeSuffix");
}

proof fn lemma_names_from_repeat()
    ensures
        fingerprint("repeat"@) == 237005011045,
        fingerprint("replace"@) == 271333406821,
        fingerprint("replaceFirst"@) == 443163439340,
        fingerprint("require"@) == 271333554405,
        fingerprint("requireNotNull"@) == 511865763061,
        fingerprint("retainAll"@) == 340067512564,
        fingerprint("reverse"@) == 271333292901,
        fingerprint("reversed"@) == 305691147126,
        fingerprint("round"@) == 202611980271,
        fingerprint("roundToInt"@) == 374443685749,
        fingerprint("roundToLong"@) == 408776161141,
        fingerprint("run"@) == 133913475826,
        fingerprint("runningFold"@) == 408770295662,
        fingerprint("runningReduce"@) == 477491754222,
        fingerprint("scan"@) == 168541319651,
        fingerprint("scanReduce"@) == 374680942433,
        fingerprint("second"@) == 237240054245,
        fingerprint("setCharAt"@) == 340352705012,
        fingerprint("setLength"@) == 340327491188,
        fingerprint("shl"@) == 134177502323,
        fingerprint("shr"@) == 134190085235,
        fingerprint("sign"@) == 168541418729,
        fingerprint("single"@) == 237242021737,
        fingerprint("singleOrNull"@) == 443414738535,
{
    reveal_strlit("repeat");
    reveal_strlit("replace");
    reveal_strlit("replaceFirst");
    reveal_strlit("require");
    reveal_strlit("requireNotNull");
    reveal_strlit("retainAll");
    reveal_strlit("reverse");
    reveal_strlit("reversed");
    reveal_strlit("round");
    reveal_strlit("roundToInt");
    reveal_strlit("roundToLong");
    reveal_strlit("run");
    reveal_strlit("runningFold");
    reveal_strlit("runningReduce");
    reveal_strlit("scan");
    reveal_strlit("scanReduce");
    reveal_strlit("second");
    reveal_strlit("setCharAt");
    reveal_strlit("setLength");
    reveal_strlit("shl");
    reveal_strlit("shr");
    reveal_strlit("sign");
    reveal_strlit("single");
    reveal_strlit("singleOrNull");
}

proof fn lemma_names_from_size()
    ensures
        fingerprint("size"@) == 168522855657,
        fingerprint("slice"@) == 202882315884,
        fingerprint("sorted"@) == 237240138095,
        fingerprint("sortedBy"@) == 306003409266,
        fingerprint("sortedByDescending"@) == 649563038053,
        fingerprint("sortedDescending"@) == 580843795045,
        fingerprint("sortedWith"@) == 374687218290,
        fingerprint("split"@) == 202913822832,
        fingerprint("splitToSequence"@) == 546479336041,
        fingerprint("sqrt"@) == 168554182897,
        fingerprint("startsWith"@) == 374687463777,
        fingerprint("subList"@) == 271632773493,
        fingerprint("subSequence"@) == 409040873954,
        fingerprint("substring"@) == 340325644770,
        fingerprint("substringAfter"@) == 512147307123,
        fingerprint("substringBefore"@) == 546479782259,
        fingerprint("subtract"@) == 305993134434,
        fingerprint("sum"@) == 134179814131,
        fingerprint("sumOf"@) == 202884479733,
        fingerprint("take"@) == 168791044321,
        fingerprint("takeIf"@) == 237512521185,
        fingerprint("takeLast"@) == 306260948459,
        fingerprint("takeUnless"@) == 374978884331,
        fingerprint("takeWhile"@) == 340589409003,
{
    reveal_strlit("size");
    reveal_strlit("slice");
    reveal_strlit("sorted");
    reveal_strlit("sortedBy");
    reveal_strlit("sortedByDescending");
    reveal_strlit("sortedDescending");
    reveal_strlit("sortedWith");
    reveal_strlit("split");
    reveal_strlit("splitToSequence");
    reveal_strlit("sqrt");
    reveal_strlit("startsWith");
    reveal_strlit("subList");
    reveal_strlit("subSequence");
    reveal_strlit("substring");
    reveal_strlit("substringAfter");
    reveal_strlit("substringBefore");
    reveal_strlit("subtract");
    reveal_strlit("sum");
    reveal_strlit("sumOf");
    reveal_strlit("take");
    reveal_strlit("takeIf");
    reveal_strlit("takeLast");
    reveal_strlit("takeUnless");
    reveal_strlit("takeWhile");
}

proof fn lemma_names_from_third()
    ensures
        fingerprint("third"@) == 203148653672,
        fingerprint("times"@) == 203180176617,
        fingerprint("toByte"@) == 237510746479,
        fingerprint("toByteOrNull"@) == 443683175033,
        fingerprint("toChar"@) == 237537731055,
        fingerprint("toCharArray"@) == 409351271491,
        fingerprint("toDouble"@) == 306230157892,
        fingerprint("toDoubleOrNull"@) == 512403012335,
        fingerprint("toFloat"@) == 271901729647,
        fingerprint("toFloatOrNull"@) == 478043518956,
        fingerprint("toHashSet"@) == 340621324488,
        fingerprint("toInt"@) == 203181684719,
        fingerprint("toIntOrNull"@) == 409323435849,
        fingerprint("toList"@) == 237541942895,
        fingerprint("toLong"@) == 237514778223,
        fingerprint("toLongOrNull"@) == 443683174255,
        fingerprint("toLowerCase"@) == 409309116364,
        fingerprint("toMutableList"@) == 478060001909,
        fingerprint("toMutableSet"@) == 443700263541,
        fingerprint("toSet"@) == 203181848559,
        fingerprint("toShort"@) == 271901665775,
        fingerprint("toShortOrNull"@) == 478043518952,
        fingerprint("toSortedMap"@) == 409332430803,
        fingerprint("toString"@) == 306234304979,
{
    reveal_strlit("third");
    reveal_strlit("times");
    reveal_strlit("toByte");
    reveal_strlit("toByteOrNull");
    reveal_strlit("toChar");
    reveal_strlit("toCharArray");
    reveal_strlit("toDouble");
    reveal_strlit("toDoubleOrNull");
    reveal_strlit("toFloat");
    reveal_strlit("toFloatOrNull");
    reveal_strlit("toHashSet");
    reveal_strlit("toInt");
    reveal_strlit("toIntOrNull");
    reveal_strlit("toList");
    reveal_strlit("toLong");
    reveal_strlit("toLongOrNull");
    reveal_strlit("toLowerCase");
    reveal_strlit("toMutableList");
    reveal_strlit("toMutableSet");
    reveal_strlit("toSet");
    reveal_strlit("toShort");
    reveal_strlit("toShortOrNull");
    reveal_strlit("toSortedMap");
    reveal_strlit("toString");
}

proof fn lemma_names_from_totypedarray()
    ensures
        fingerprint("toTypedArray"@) == 443710781561,
        fingerprint("toUpperCase"@) == 409309116501,
        fingerprint("trim"@) == 168807790962,
        fingerprint("trimEnd"@) == 271868196082,
        fingerprint("trimStart"@) == 340620801769,
        fingerprint("trimToSize"@) == 374949541609,
        fingerprint("union"@) == 203438061422,
        fingerprint("unzip"@) == 203442534254,
        fingerprint("uppercase"@) == 340858286832,
        fingerprint("uppercaseChar"@) == 478324226405,
        fingerprint("ushr"@) == 169086695923,
        fingerprint("value"@) == 203687669985,
        fingerprint("values"@) == 238076917345,
        fingerprint("windowed"@) == 307033274222,
        fingerprint("withIndex"@) == 341434332276,
        fingerprint("xor"@) == 135532378104,
        fingerprint("zip"@) == 136064955642,
        fingerprint("zipWithNext"@) == 410951429104,
{
    reveal_strlit("toTypedArray");
    reveal_strlit("toUpperCase");
    reveal_strlit("trim");
    reveal_strlit("trimEnd");
    reveal_strlit("trimStart");
    reveal_strlit("trimToSize");
    reveal_strlit("union");
    reveal_strlit("unzip");
    reveal_strlit("uppercase");
    reveal_strlit("uppercaseChar");
    reveal_strlit("ushr");
    reveal_strlit("value");
    reveal_strlit("values");
    reveal_strlit("windowed");
    reveal_strlit("withIndex");
    reveal_strlit("xor");
    reveal_strlit("zip");
    reveal_strlit("zipWithNext");
}

/// The names of the members are all different.
pub proof fn lemma_names()
    ensures
        fingerprint("Any"@) == 120783091521,
        fingerprint("Appendable"@) == 361259152112,
        fingerprint("Array"@) == 189502634354,
        fingerprint("Boolean"@) == 258467379183,
        fingerprint("BooleanArray"@) == 430289171180,
        fingerprint("Byte"@) == 155369422073,
        fingerprint("Char"@) == 155664807016,
        fingerprint("CharArray"@) == 327477655905,
        fingerprint("CharSequence"@) == 430515710450,
        fingerprint("Collection"@) == 361814881900,
        fingerprint("Comparable"@) == 361796253805,
        fingerprint("Double"@) == 224625474287,
        fingerprint("DoubleArray"@) == 396466155893,
        fingerprint("Float"@) == 190834275948,
        fingerprint("Grouping.eachCount"@) == 637779146608,
        fingerprint("Int"@) == 122920089417,
        fingerprint("IntArray"@) == 294729333364,
        fingerprint("Iterable"@) == 294687109861,
        fingerprint("List"@) == 158085215465,
        fingerprint("Long"@) == 158057871343,
        fingerprint("Map"@) == 123985227981,
        fingerprint("MutableList"@) == 398871703796,
        fingerprint("MutableMap"@) == 364503576820,
        fingerprint("MutableSet"@) == 364511965428,
        fingerprint("Nothing"@) == 261673859695,
        fingerprint("Number"@) == 227337090805,
        fingerprint("Pair"@) == 159154598113,
        fingerprint("Set"@) == 125604295379,
        fingerprint("Short"@) == 194323936360,
        fingerprint("String"@) == 228656314740,
        fingerprint("StringBuffer"@) == 434837174121,
        fingerprint("StringBuilder"@) == 469196912489,
        fingerprint("TODO"@) == 160154331087,
        fingerprint("Throwable"@) == 331999999986,
        fingerprint("Triple"@) == 228920669426,
        fingerprint("Unit"@) == 160500971374,
        fingerprint("abs"@) == 129360245089,
        fingerprint("absoluteValue"@) == 472928564847,
        fingerprint("add"@) == 129328820833,
        fingerprint("addAll"@) == 232424239716,
        fingerprint("all"@) == 129345730145,
        fingerprint("also"@) == 163711874668,
        fingerprint("and"@) == 129328985953,
        fingerprint("any"@) == 129373026145,
        fingerprint("append"@) == 232408053872,
        fingerprint("appendLine"@) == 369849086704,
        fingerprint("appendRange"@) == 404208825072,
        fingerprint("apply"@) == 198092535920,
        fingerprint("asIterable"@) == 369849317961,
        fingerprint("asList"@) == 232441669235,
        fingerprint("asSequence"@) == 369849365203,
        fingerprint("associate"@) == 335489333235,
        fingerprint("associateBy"@) == 404250851315,
        fingerprint("associateWith"@) == 472934543855,
        fingerprint("average"@) == 266770100982,
        fingerprint("capacity"@) == 301708408944,
        fingerprint("ceil"@) == 164242289381,
        fingerprint("check"@) == 198599865448,
        fingerprint("checkNotNull"@) == 439120295395,
        fingerprint("chunked"@) == 267304811240,
        fingerprint("clear"@) == 198614546028,
        fingerprint("code"@) == 164227528687,
        fingerprint("coerceAtLeast"@) == 473496056306,
        fingerprint("coerceAtMost"@) == 439136317938,
        fingerprint("coerceIn"@) == 301685338853,
        fingerprint("compareTo"@) == 336047143021,
        fingerprint("contains"@) == 301695793006,
        fingerprint("containsAll"@) == 404760459886,
        fingerprint("containsKey"@) == 404787722862,
        fingerprint("count"@) == 198619002863,
        fingerprint("delete"@) == 233215456869,
        fingerprint("deleteAt"@) == 301966636652,
        fingerprint("deleteCharAt"@) == 439404788325,
        fingerprint("deleteRange"@) == 405014147820,
        fingerprint("digitToInt"@) == 370685588711,
        fingerprint("distinct"@) == 301966457331,
        fingerprint("distinctBy"@) == 370696501875,
        fingerprint("div"@) == 130171958500,
        fingerprint("drop"@) == 164519213426,
        fingerprint("dropLast"@) == 301965981679,
        fingerprint("dropWhile"@) == 336294443119,
        fingerprint("eachCount"@) == 336594007139,
        fingerprint("eachCountTo"@) == 405303719011,
        fingerprint("elementAt"@) == 336594564837,
        fingerprint("elementAtOrNull"@) == 542735628141,
        fingerprint("endsWith"@) == 302209430116,
        fingerprint("ensureCapacity"@) == 508403677557,
        fingerprint("entries"@) == 267873204846,
        fingerprint("equals"@) == 233513188081,
        fingerprint("error"@) == 199151630706,
        fingerprint("exceptionOrNull"@) == 542736382565,
        fingerprint("filter"@) == 233779836521,
        fingerprint("filterIndexed"@) == 474267939572,
        fingerprint("filterKeys"@) == 371220855404,
        fingerprint("filterNot"@) == 336863001196,
        fingerprint("filterNotNull"@) == 474284798708,
        fingerprint("filterValues"@) == 439939871476,
        fingerprint("find"@) == 165030900969,
        fingerprint("findLast"@) == 302502852462,
        fingerprint("first"@) == 199424259305,
        fingerprint("firstOrNull"@) == 405565340146,
        fingerprint("flatMap"@) == 268135379180,
        fingerprint("flatMapIndexed"@) == 508627674868,
        fingerprint("flatten"@) == 268131184876,
        fingerprint("floor"@) == 199420016236,
        fingerprint("floorDiv"@) == 302507669487,
        fingerprint("floorMod"@) == 302469920751,
        fingerprint("fold"@) == 165030868975,
        fingerprint("foldRight"@) == 336862687852,
        fingerprint("forEach"@) == 268117834095,
        fingerprint("forEachIndexed"@) == 508627677381,
        fingerprint("format"@) == 233783916911,
        fingerprint("get"@) == 130973004519,
        fingerprint("getOrElse"@) == 337100187636,
        fingerprint("getOrNull"@) == 337114867700,
        fingerprint("groupBy"@) == 268422707186,
        fingerprint("groupingBy"@) == 371501726447,
        fingerprint("hashCode"@) == 303008119283,
        fingerprint("indexOf"@) == 268919468654,
        fingerprint("indexOfFirst"@) == 440747539557,
        fingerprint("indexOfLast"@) == 406387421924,
        fingerprint("insert"@) == 234589092334,
        fingerprint("insertRange"@) == 406356570867,
        fingerprint("intersect"@) == 337668518644,
        fingerprint("inv"@) == 131514218345,
        fingerprint("isBlank"@) == 268930064755,
        fingerprint("isDigit"@) == 268948890227,
        fingerprint("isEmpty"@) == 268959441651,
        fingerprint("isFailure"@) == 337636913350,
        fingerprint("isLetter"@) == 303304615500,
        fingerprint("isLetterOrDigit"@) == 543826950757,
        fingerprint("isLowerCase"@) == 406356326348,
        fingerprint("isNotBlank"@) == 372008597454,
        fingerprint("isNotEmpty"@) == 372038006734,
        fingerprint("isSuccess"@) == 337666177747,
        fingerprint("isUpperCase"@) == 406356326485,
        fingerprint("isWhitespace"@) == 440716063976,
        fingerprint("joinToString"@) == 440988396142,
        fingerprint("jround"@) == 234824234994,
        fingerprint("key"@) == 132057232107,
        fingerprint("keys"@) == 166404715237,
        fingerprint("last"@) == 166675149025,
        fingerprint("lastIndexOf"@) == 407163878003,
        fingerprint("lastOrNull"@) == 372816788083,
        fingerprint("length"@) == 235369264997,
        fingerprint("let"@) == 132315181804,
        fingerprint("lines"@) == 201032709353,
        fingerprint("lowercase"@) == 338442367735,
        fingerprint("lowercaseChar"@) == 475908307301,
        fingerprint("map"@) == 132575162605,
        fingerprint("mapIndexed"@) == 373068211440,
        fingerprint("mapKeys"@) == 270020048993,
        fingerprint("mapNotNull"@) == 373085251440,
        fingerprint("mapValues"@) == 338739882864,
        fingerprint("max"@) == 132591939821,
        fingerprint("maxBy"@) == 201313890529,
        fingerprint("maxByOrNull"@) == 407444382072,
        fingerprint("maxOf"@) == 201274044641,
        fingerprint("maxOfOrNull"@) == 407444383736,
        fingerprint("maxOrNull"@) == 338725480440,
        fingerprint("message"@) == 269991344613,
        fingerprint("min"@) == 132571100397,
        fingerprint("minBy"@) == 201313727721,
        fingerprint("minByOrNull"@) == 407444382062,
        fingerprint("minOf"@) == 201273881833,
        fingerprint("minOfOrNull"@) == 407444383726,
        fingerprint("minOrNull"@) == 338725480430,
        fingerprint("minus"@) == 201301144809,
        fingerprint("minusAssign"@) == 407448353518,
        fingerprint("minusElement"@) == 441821379061,
        fingerprint("mod"@) == 132550227949,
        fingerprint("none"@) == 167180482543,
        fingerprint("onEach"@) == 236174467822,
        fingerprint("onFailure"@) == 339247526086,
        fingerprint("onSuccess"@) == 339276790483,
        fingerprint("or"@) == 98756769775,
        fingerprint("padEnd"@) == 236434059873,
        fingerprint("padStart"@) == 305187861092,
        fingerprint("partition"@) == 339534838386,
        fingerprint("plus"@) == 167746827884,
        fingerprint("plusAssign"@) == 373894740469,
        fingerprint("plusElement"@) == 408266947061,
        fingerprint("pow"@) == 133395380208,
        fingerprint("put"@) == 133389187824,
        fingerprint("reduce"@) == 236973814373,
        fingerprint("reduceRight"@) == 408803703524,
        fingerprint("rem"@) == 133911114482,
        fingerprint("remove"@) == 236973717221,
        fingerprint("removeAll"@) == 340067727341,
        fingerprint("removeAt"@) == 305724765933,
        fingerprint("removePrefix"@) == 443171486575,
        fingerprint("removeSuffix"@) == 443171535727,
        fingerprint("repeat"@) == 237005011045,
        fingerprint("replace"@) == 271333406821,
        fingerprint("replaceFirst"@) == 443163439340,
        fingerprint("require"@) == 271333554405,
        fingerprint("requireNotNull"@) == 511865763061,
        fingerprint("retainAll"@) == 340067512564,
        fingerprint("reverse"@) == 271333292901,
        fingerprint("reversed"@) == 305691147126,
        fingerprint("round"@) == 202611980271,
        fingerprint("roundToInt"@) == 374443685749,
        fingerprint("roundToLong"@) == 408776161141,
        fingerprint("run"@) == 133913475826,
        fingerprint("runningFold"@) == 408770295662,
        fingerprint("runningReduce"@) == 477491754222,
        fingerprint("scan"@) == 168541319651,
        fingerprint("scanReduce"@) == 374680942433,
        fingerprint("second"@) == 237240054245,
        fingerprint("setCharAt"@) == 340352705012,
        fingerprint("setLength"@) == 340327491188,
        fingerprint("shl"@) == 134177502323,
        fingerprint("shr"@) == 134190085235,
        fingerprint("sign"@) == 168541418729,
        fingerprint("single"@) == 237242021737,
        fingerprint("singleOrNull"@) == 443414738535,
        fingerprint("size"@) == 168522855657,
        fingerprint("slice"@) == 202882315884,
        fingerprint("sorted"@) == 237240138095,
        fingerprint("sortedBy"@) == 306003409266,
        fingerprint("sortedByDescending"@) == 649563038053,
        fingerprint("sortedDescending"@) == 580843795045,
        fingerprint("sortedWith"@) == 374687218290,
        fingerprint("split"@) == 202913822832,
        fingerprint("splitToSequence"@) == 546479336041,
        fingerprint("sqrt"@) == 168554182897,
        fingerprint("startsWith"@) == 374687463777,
        fingerprint("subList"@) == 271632773493,
        fingerprint("subSequence"@) == 409040873954,
        fingerprint("substring"@) == 340325644770,
        fingerprint("substringAfter"@) == 512147307123,
        fingerprint("substringBefore"@) == 546479782259,
        fingerprint("subtract"@) == 305993134434,
        fingerprint("sum"@) == 134179814131,
        fingerprint("sumOf"@) == 202884479733,
        fingerprint("take"@) == 168791044321,
        fingerprint("takeIf"@) == 237512521185,
        fingerprint("takeLast"@) == 306260948459,
        fingerprint("takeUnless"@) == 374978884331,
        fingerprint("takeWhile"@) == 340589409003,
        fingerprint("third"@) == 203148653672,
        fingerprint("times"@) == 203180176617,
        fingerprint("toByte"@) == 237510746479,
        fingerprint("toByteOrNull"@) == 443683175033,
        fingerprint("toChar"@) == 237537731055,
        fingerprint("toCharArray"@) == 409351271491,
        fingerprint("toDouble"@) == 306230157892,
        fingerprint("toDoubleOrNull"@) == 512403012335,
        fingerprint("toFloat"@) == 271901729647,
        fingerprint("toFloatOrNull"@) == 478043518956,
        fingerprint("toHashSet"@) == 340621324488,
        fingerprint("toInt"@) == 203181684719,
        fingerprint("toIntOrNull"@) == 409323435849,
        fingerprint("toList"@) == 237541942895,
        fingerprint("toLong"@) == 237514778223,
        fingerprint("toLongOrNull"@) == 443683174255,
        fingerprint("toLowerCase"@) == 409309116364,
        fingerprint("toMutableList"@) == 478060001909,
        fingerprint("toMutableSet"@) == 443700263541,
        fingerprint("toSet"@) == 203181848559,
        fingerprint("toShort"@) == 271901665775,
        fingerprint("toShortOrNull"@) == 478043518952,
        fingerprint("toSortedMap"@) == 409332430803,
        fingerprint("toString"@) == 306234304979,
        fingerprint("toTypedArray"@) == 443710781561,
        fingerprint("toUpperCase"@) == 409309116501,
        fingerprint("trim"@) == 168807790962,
        fingerprint("trimEnd"@) == 271868196082,
        fingerprint("trimStart"@) == 340620801769,
        fingerprint("trimToSize"@) == 374949541609,
        fingerprint("union"@) == 203438061422,
        fingerprint("unzip"@) == 203442534254,
        fingerprint("uppercase"@) == 340858286832,
        fingerprint("uppercaseChar"@) == 478324226405,
        fingerprint("ushr"@) == 169086695923,
        fingerprint("value"@) == 203687669985,
        fingerprint("values"@) == 238076917345,
        fingerprint("windowed"@) == 307033274222,
        fingerprint("withIndex"@) == 341434332276,
        fingerprint("xor"@) == 135532378104,
        fingerprint("zip"@) == 136064955642,
        fingerprint("zipWithNext"@) == 410951429104,
{
    lemma_names_from_any();
    lemma_names_from_nothing();
    lemma_names_from_asiterable();
    lemma_names_from_deletecharat();
    lemma_names_from_filtervalues();
    lemma_names_from_indexoflast();
    lemma_names_from_length();
    lemma_names_from_minusassign();
    lemma_names_from_repeat();
    lemma_names_from_size();
    lemma_names_from_third();
    lemma_names_from_totypedarray();
}

} // verus!
