# mongo_php_async_driver

The core of an asynchronous MongoDB driver for PHP, written in Verus.

- `src/` is the verified library:
  - the models of PHP values (`zval`) and of BSON (`bson`), and the
    conversions between them (`conversion`);
  - the reading of the raw BSON bytes that the server sends into that model
    (`raw_document`);
  - the proofs of what comes back from a round trip (`round_trip`). A PHP
    value made of booleans, integers, floats, strings, ObjectId objects with
    a lower-case hex form and arrays with distinct keys (no null, no
    references) comes back unchanged from BSON, provided that its conversion
    to BSON succeeds: every string is valid UTF-8 and every array is a list or
    keyed only by strings. A BSON value made of booleans, integers, doubles,
    strings, ObjectIds, arrays and non-empty documents with distinct keys comes
    back from PHP with its 32-bit integers widened to 64 bits;
  - ObjectId parsing and printing (`object_id`), the options of a `find`
    query (`find_options`), the client, database and collection handles
    (`client`), and the state machine behind PHP's iteration over a query's
    documents (`cursor`). `external` declares the driver's types that the
    library carries without looking inside.
- `app/` is the PHP extension around it: the PHP classes, the event loop glue,
  the network calls, and the one-for-one conversions between the engine's
  zvals, the driver's BSON values and the library's models.
- `tests/` exercises the library on concrete values.
